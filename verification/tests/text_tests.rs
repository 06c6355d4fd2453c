use email_mcp::text::{
    chars_of, decimal_string, eq_ignore_case, is_whitespace, parse_decimal, str_eq, trim_str,
};

#[test]
fn trim_removes_unicode_white_space() {
    assert_eq!(trim_str("  \t hello world \r\n"), "hello world");
    assert_eq!(trim_str("\u{3000}x\u{a0}"), "x");
    assert_eq!(trim_str("   "), "");
    assert_eq!(trim_str(""), "");
}

#[test]
fn whitespace_matches_std() {
    for c in ['\t', '\n', '\u{b}', '\u{c}', '\r', ' ', '\u{85}', '\u{a0}', '\u{1680}', '\u{2000}', '\u{200a}', '\u{2028}', '\u{2029}', '\u{202f}', '\u{205f}', '\u{3000}', 'a', '\u{200b}', '_'] {
        assert_eq!(is_whitespace(c), c.is_whitespace(), "{:?}", c);
    }
}

#[test]
fn decimal_of_numbers() {
    assert_eq!(decimal_string(0), "0");
    assert_eq!(decimal_string(7), "7");
    assert_eq!(decimal_string(993), "993");
    assert_eq!(decimal_string(u64::MAX), u64::MAX.to_string());
}

#[test]
fn parse_decimal_accepts_only_u64_digits() {
    assert_eq!(parse_decimal("20"), Some(20));
    assert_eq!(parse_decimal("0"), Some(0));
    assert_eq!(parse_decimal("18446744073709551615"), Some(u64::MAX));
    assert_eq!(parse_decimal("18446744073709551616"), None);
    assert_eq!(parse_decimal("-5"), None);
    assert_eq!(parse_decimal("2.5"), None);
    assert_eq!(parse_decimal(""), None);
}

#[test]
fn ascii_case_comparison() {
    assert!(eq_ignore_case("Subject", "subject"));
    assert!(eq_ignore_case("FROM", "From"));
    assert!(!eq_ignore_case("Date", "Dates"));
    assert!(!eq_ignore_case("é", "É"));
}

#[test]
fn string_equality_and_chars() {
    assert!(str_eq("abc", "abc"));
    assert!(!str_eq("abc", "abd"));
    assert_eq!(chars_of("héllo"), vec!['h', 'é', 'l', 'l', 'o']);
}
