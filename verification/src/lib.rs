pub mod text;
pub mod pattern;
pub mod search;
pub mod attachments;
pub mod triage;
pub mod report;
pub mod history;
