use matrix_bridge::text::{
    contains_str, ends_with, parse_i64, split_char, split_whitespace, starts_with, trim,
};

#[test]
fn decimal_parsing() {
    assert_eq!(parse_i64("0"), Some(0));
    assert_eq!(parse_i64("-17"), Some(-17));
    assert_eq!(parse_i64("+17"), Some(17));
    assert_eq!(parse_i64("9223372036854775807"), Some(i64::MAX));
    assert_eq!(parse_i64("-9223372036854775808"), Some(i64::MIN));
    assert_eq!(parse_i64("9223372036854775808"), None);
    assert_eq!(parse_i64("-9223372036854775809"), None);
    assert_eq!(parse_i64("99999999999999999999999"), None);
    assert_eq!(parse_i64(""), None);
    assert_eq!(parse_i64("-"), None);
    assert_eq!(parse_i64("+"), None);
    assert_eq!(parse_i64("12a"), None);
    assert_eq!(parse_i64(" 1"), None);
    for s in ["0", "42", "-42", "+42", "007", "123456789012"] {
        assert_eq!(parse_i64(s), s.parse::<i64>().ok(), "input {s}");
    }
}

#[test]
fn string_helpers() {
    assert!(starts_with("!bridge link", "!bridge"));
    assert!(!starts_with("!brid", "!bridge"));
    assert!(ends_with("file.png", ".png"));
    assert!(contains_str("a dns error here", "dns error"));
    assert!(!contains_str("", "x"));
    assert_eq!(trim("  hi \n"), "hi");
    assert_eq!(split_char("a,,b", ','), vec!["a", "", "b"]);
    assert_eq!(split_whitespace("  a  b\tc "), vec!["a", "b", "c"]);
}
