use dnsflow::text::{
    chars_of, contains, join_strings, parse_i64, parse_u16, parse_u32, push_decimal,
    push_signed_decimal, starts_with, str_eq, string_from_chars,
};

#[test]
fn integers_parse_like_from_str() {
    assert_eq!(parse_i64("42"), Some(42));
    assert_eq!(parse_i64("-9223372036854775808"), Some(i64::MIN));
    assert_eq!(parse_i64("9223372036854775808"), None);
    assert_eq!(parse_i64("+7"), Some(7));
    assert_eq!(parse_i64("-"), None);
    assert_eq!(parse_i64(""), None);
    assert_eq!(parse_i64(" 1"), None);
    assert_eq!(parse_u16("65535"), Some(65535));
    assert_eq!(parse_u16("65536"), None);
    assert_eq!(parse_u16("-1"), None);
    assert_eq!(parse_u32("4294967295"), Some(u32::MAX));
    assert_eq!(parse_u32("4294967296"), None);
    assert_eq!(parse_u32("1000"), Some(1000));
}

#[test]
fn decimals_are_written() {
    let mut s = "n=".to_string();
    push_decimal(&mut s, 1230);
    assert_eq!(s, "n=1230");
    let mut t = String::new();
    push_signed_decimal(&mut t, i64::MIN);
    assert_eq!(t, "-9223372036854775808");
    let mut u = String::new();
    push_signed_decimal(&mut u, 0);
    assert_eq!(u, "0");
}

#[test]
fn string_helpers() {
    assert!(contains("/usr/bin/firefox", "fire"));
    assert!(!contains("fire", "firefox"));
    assert!(contains("abc", ""));
    assert!(starts_with("nameserver 1.1.1.1", "nameserver"));
    assert!(!starts_with("name", "nameserver"));
    assert!(str_eq("a", "a"));
    assert!(!str_eq("a", "b"));
    assert_eq!(chars_of("héllo").len(), 5);
    assert_eq!(string_from_chars(&['x', 'ÿ']), "xÿ");
    assert_eq!(
        join_strings(&vec!["a".to_string(), "b".to_string(), "c".to_string()], " "),
        "a b c"
    );
    assert_eq!(join_strings(&vec![], ","), "");
}
