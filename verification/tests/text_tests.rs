use lootlabs_reward_role::text::{
    chars_of, contains_char, eq_ignore_ascii_case, parse_i64, starts_with, strip_prefix, trim,
    trim_end_char,
};

#[test]
fn trim_removes_unicode_whitespace_at_both_ends() {
    assert_eq!(trim("\u{3000} a b\t\n\u{85}"), "a b");
    assert_eq!(trim("   "), "");
    assert_eq!(trim("x"), "x");
    assert_eq!(trim("\u{200b}x"), "\u{200b}x");
}

#[test]
fn trim_end_char_removes_every_trailing_occurrence() {
    assert_eq!(trim_end_char("https://a.b//", '/'), "https://a.b");
    assert_eq!(trim_end_char("///", '/'), "");
    assert_eq!(trim_end_char("/a/b", '/'), "/a/b");
}

#[test]
fn parse_i64_accepts_what_std_accepts() {
    for s in ["123", "+5", "-0", "-42", "007", "9223372036854775807", "-9223372036854775808"] {
        assert_eq!(parse_i64(s), s.parse::<i64>().ok(), "{s}");
    }
    assert_eq!(parse_i64("9223372036854775807"), Some(i64::MAX));
    assert_eq!(parse_i64("-9223372036854775808"), Some(i64::MIN));
}

#[test]
fn parse_i64_rejects_what_std_rejects() {
    for s in ["", "-", "+", "12a", " 1", "1 ", "1_000", "9223372036854775808", "-9223372036854775809", "99999999999999999999999", "--1", "+-1", "１"] {
        assert_eq!(parse_i64(s), None, "{s}");
        assert!(s.parse::<i64>().is_err(), "{s}");
    }
}

#[test]
fn ascii_case_is_ignored_and_nothing_else() {
    assert!(eq_ignore_ascii_case("CLICK_ID", "click_id"));
    assert!(eq_ignore_ascii_case("k", "K"));
    assert!(!eq_ignore_ascii_case("kk", "k"));
    assert!(!eq_ignore_ascii_case("É", "é"));
}

#[test]
fn prefixes_and_characters() {
    assert!(starts_with("https://x", "https://"));
    assert!(!starts_with("http", "https://"));
    assert_eq!(strip_prefix("Token abc", "Token "), Some("abc".to_string()));
    assert_eq!(strip_prefix("Tok", "Token "), None);
    assert!(contains_char("a?b", '?'));
    assert!(!contains_char("ab", '?'));
    assert_eq!(chars_of("añ😀"), vec!['a', 'ñ', '😀']);
}
