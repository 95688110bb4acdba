use pncp_minerador::text::{
    chars_of, contains_text, decimal_text, ends_with_text, is_blank, join_texts,
    prefix_before, replace_text, same_text, split_lines, trim, white_space,
};

#[test]
fn trim_removes_unicode_white_space_at_both_ends() {
    assert_eq!(trim("  a b \n"), "a b");
    assert_eq!(trim("\u{3000}x\u{a0}\u{85}"), "x");
    assert_eq!(trim("\t\r\n"), "");
    assert_eq!(trim(""), "");
    assert_eq!(trim("já"), "já");
}

#[test]
fn white_space_follows_the_unicode_property() {
    for c in ['\t', '\n', '\u{b}', '\u{c}', '\r', ' ', '\u{85}', '\u{a0}', '\u{1680}', '\u{2000}', '\u{200a}', '\u{2028}', '\u{2029}', '\u{202f}', '\u{205f}', '\u{3000}'] {
        assert!(white_space(c), "{:?}", c);
        assert_eq!(white_space(c), c.is_whitespace());
    }
    for c in ['a', '\u{200b}', '\u{180e}', '0', '_', '\u{feff}'] {
        assert_eq!(white_space(c), c.is_whitespace(), "{:?}", c);
        assert!(!white_space(c));
    }
}

#[test]
fn blank_lines() {
    assert!(is_blank(""));
    assert!(is_blank(" \t \r"));
    assert!(!is_blank(" {}"));
}

#[test]
fn replace_takes_matches_left_to_right() {
    assert_eq!(replace_text("a b  c", " ", "%20"), "a%20b%20%20c");
    assert_eq!(replace_text("aaa", "aa", "b"), "ba");
    assert_eq!(replace_text("x/compras/y/compras/", "/compras/", "/app/editais/"), "x/app/editais/y/app/editais/");
    assert_eq!(replace_text("nada", "/compras/", "/app/"), "nada");
    assert_eq!(replace_text("", " ", "%20"), "");
}

#[test]
fn contains_and_ends_with() {
    assert!(contains_text("/pncp/compras/1", "/compras/"));
    assert!(!contains_text("/pncp/compra/1", "/compras/"));
    assert!(contains_text("abc", ""));
    assert!(ends_with_text("edital.pdf", ".pdf"));
    assert!(!ends_with_text("edital.pdf.txt", ".pdf"));
    assert!(!ends_with_text("pdf", ".pdf"));
}

#[test]
fn decimal_text_writes_u64() {
    assert_eq!(decimal_text(0), "0");
    assert_eq!(decimal_text(7), "7");
    assert_eq!(decimal_text(2025), "2025");
    assert_eq!(decimal_text(u64::MAX), u64::MAX.to_string());
}

#[test]
fn join_texts_puts_separators_between() {
    let parts = vec!["a".to_string(), "b".to_string(), "c".to_string()];
    assert_eq!(join_texts(&parts, "|"), "a|b|c");
    assert_eq!(join_texts(&vec!["só".to_string()], "|"), "só");
    assert_eq!(join_texts(&vec![], "|"), "");
}

#[test]
fn prefix_before_compares_bytes() {
    assert!(prefix_before(b"2024-01-31T10", 10, b"2024-02-01"));
    assert!(!prefix_before(b"2024-02-01T10", 10, b"2024-02-01"));
    assert!(!prefix_before(b"2024-03-01", 10, b"2024-02-01"));
    assert!(prefix_before(b"2024-02-01", 10, b"2024-02-01X"));
    assert!(!prefix_before(b"", 0, b""));
}

#[test]
fn lines_follow_str_lines() {
    let s = "a\r\nb\n\nc\r";
    assert_eq!(split_lines(s), s.lines().map(String::from).collect::<Vec<_>>());
    assert_eq!(split_lines(s), vec!["a", "b", "", "c\r"]);
    assert_eq!(split_lines(""), Vec::<String>::new());
    assert_eq!(split_lines("x\n"), vec!["x"]);
    assert_eq!(split_lines("\n"), vec![""]);
    assert_eq!(split_lines("\r\n\r\n"), vec!["", ""]);
}

#[test]
fn text_comparison_and_chars() {
    assert!(same_text("TODOS", "TODOS"));
    assert!(!same_text("TODOS", "TODO"));
    assert_eq!(chars_of("ção"), vec!['ç', 'ã', 'o']);
}
