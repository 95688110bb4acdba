use pncp_minerador::pattern::{
    attachment_wanted, search_wanted, unwanted, KeywordFilter,
};

fn terms(ts: &[&str]) -> Vec<String> {
    ts.iter().map(|t| t.to_string()).collect()
}

#[test]
fn patterns_built_from_terms() {
    assert_eq!(search_wanted(&terms(&[])), "(?i).*");
    assert_eq!(search_wanted(&terms(&["software", "sistema"])), r"(?i)\b(software|sistema)\b");
    assert_eq!(attachment_wanted(&terms(&[])), "(?i).*");
    assert_eq!(attachment_wanted(&terms(&["software"])), "(?i)(software)");
    assert_eq!(unwanted(&terms(&[])), "PALAVRA_IMPOSSIVEL_DE_EXISTIR_999");
    assert_eq!(unwanted(&terms(&["obra", "reforma"])), "(?i)(obra|reforma)");
}

#[test]
fn search_filter_matches_whole_words() {
    let f = KeywordFilter::for_search(&terms(&["software"]), &terms(&[])).unwrap();
    assert!(f.admits_text("aquisição de SOFTWARE de gestão"));
    assert!(!f.admits_text("aquisição de softwares"));
}

#[test]
fn attachment_filter_matches_anywhere() {
    let f = KeywordFilter::for_attachments(&terms(&["software"]), &terms(&[])).unwrap();
    assert!(f.admits_text("licenças de softwares"));
    assert!(!f.admits_text("material de limpeza"));
}

#[test]
fn unwanted_terms_rule_out() {
    let f = KeywordFilter::for_search(&terms(&["software"]), &terms(&["hardware"])).unwrap();
    assert!(f.admits_text("software livre"));
    assert!(!f.admits_text("software e HARDWARE"));
}

#[test]
fn no_terms_admit_everything_but_the_sentinel() {
    let f = KeywordFilter::for_search(&terms(&[]), &terms(&[])).unwrap();
    assert!(f.admits_text("qualquer coisa"));
    assert!(f.admits_text(""));
    assert!(!f.admits_text("texto com PALAVRA_IMPOSSIVEL_DE_EXISTIR_999"));
}

#[test]
fn invalid_terms_give_no_filter() {
    assert!(KeywordFilter::for_search(&terms(&["("]), &terms(&[])).is_none());
    assert!(KeywordFilter::for_attachments(&terms(&["ok"]), &terms(&["[z-a]"])).is_none());
    assert!(KeywordFilter::new("(a", "b").is_none());
    assert!(KeywordFilter::new("a", "b").is_some());
}

