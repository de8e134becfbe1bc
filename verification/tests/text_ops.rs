use smcp::text::{
    ascii_lowercase, contains_str, decimal_string, find_char, remove_char, rfind_char, split_lines,
    starts_with, strip_prefix, trim, trim_end_matches_char, trim_matches_char,
};

#[test]
fn trimming_matches_str_trim() {
    for s in ["", "   ", " a b ", "\u{3000}x\u{a0}", "\t\r\nline\r\n", "\u{85}y\u{2028}"] {
        assert_eq!(trim(s), s.trim());
    }
    assert_eq!(remove_char("a b  c ", ' '), "abc");
    assert_eq!(trim_matches_char("\"\"name\"", '"'), "name");
    assert_eq!(trim_end_matches_char("x>>", '>'), "x");
}

#[test]
fn prefixes_and_searches() {
    assert!(starts_with("re: hi", "re:"));
    assert!(!starts_with("r", "re:"));
    assert_eq!(strip_prefix("KEY=value", "KEY="), Some("value".to_string()));
    assert_eq!(strip_prefix("KEY", "KEY="), None);
    assert_eq!(find_char("a<b<c", '<'), Some(1));
    assert_eq!(rfind_char("a.b.c", '.'), Some(3));
    assert_eq!(find_char("abc", '<'), None);
    assert!(contains_str("multipart/text/plain; x", "text/plain"));
    assert!(!contains_str("text/pla", "text/plain"));
    assert!(contains_str("abc", ""));
}

#[test]
fn case_mapping_and_numbers() {
    assert_eq!(ascii_lowercase("PDF.Ä"), "pdf.Ä");
    assert_eq!(decimal_string(0), "0");
    assert_eq!(decimal_string(4294967295), "4294967295");
}

#[test]
fn lines_split_at_line_feeds() {
    assert_eq!(split_lines("a\nb\r\n"), vec!["a".to_string(), "b\r".to_string(), String::new()]);
    assert_eq!(split_lines(""), vec![String::new()]);
}
