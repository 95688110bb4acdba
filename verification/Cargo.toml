[package]
name = "pncp_minerador"
version = "0.1.0"
edition = "2021"
publish = false

[dependencies]
regex = "1"
zip = { version = "2", default-features = false, features = ["deflate"] }
serde_json = "1"
reqwest = { version = "0.12", default-features = false, features = ["json", "rustls-tls"] }
pdf-extract = "*"
tokio = { version = "1", features = ["rt-multi-thread", "macros"] }
