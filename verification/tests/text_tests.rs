use coraos::text::{
    decimal_string, parse_u16, str_lines, str_split_once, str_words, trimmed, str_contains,
    str_starts_with, str_ends_with, join_from,
};
use coraos::services::validate_service_name;
use coraos::user::UserRole;

fn strings(v: &[&str]) -> Vec<String> {
    v.iter().map(|s| s.to_string()).collect()
}

#[test]
fn words_split_on_unicode_white_space() {
    assert_eq!(str_words("  a\tb\u{3000}c  "), strings(&["a", "b", "c"]));
    assert_eq!(str_words(""), Vec::<String>::new());
    assert_eq!(str_words("   "), Vec::<String>::new());
}

#[test]
fn lines_follow_str_lines() {
    assert_eq!(str_lines("a\nb"), strings(&["a", "b"]));
    assert_eq!(str_lines("a\r\nb\n"), strings(&["a", "b"]));
    assert_eq!(str_lines("\n"), strings(&[""]));
    assert_eq!(str_lines("a\n\nb\r"), strings(&["a", "", "b\r"]));
    assert_eq!(str_lines(""), Vec::<String>::new());
}

#[test]
fn trim_removes_white_space_at_both_ends() {
    assert_eq!(trimmed("  x y \n"), "x y");
    assert_eq!(trimmed("\u{a0}z\u{2009}"), "z");
    assert_eq!(trimmed(" \t "), "");
}

#[test]
fn decimal_and_port_parsing() {
    assert_eq!(decimal_string(0), "0");
    assert_eq!(decimal_string(18446744073709551615), "18446744073709551615");
    assert_eq!(parse_u16("8080"), Some(8080));
    assert_eq!(parse_u16("+443"), Some(443));
    assert_eq!(parse_u16("0065535"), Some(65535));
    assert_eq!(parse_u16("65536"), None);
    assert_eq!(parse_u16("-1"), None);
    assert_eq!(parse_u16("+"), None);
    assert_eq!(parse_u16(""), None);
    assert_eq!(parse_u16(" 80"), None);
    for p in [0u16, 1, 9, 10, 80, 8080, 65535] {
        assert_eq!(parse_u16(&decimal_string(p as u64)), Some(p));
    }
}

#[test]
fn split_once_at_first_separator() {
    assert_eq!(
        str_split_once("a=b=c", '='),
        Some(("a".to_string(), "b=c".to_string()))
    );
    assert_eq!(str_split_once("abc", '='), None);
}

#[test]
fn lowercase_and_alphanumeric_follow_std() {
    assert_eq!(UserRole::from_str("AdMiN"), UserRole::Admin);
    assert_eq!(UserRole::from_str("OPERATOR"), UserRole::Operator);
    assert!(validate_service_name("école7").is_ok());
    assert!(validate_service_name("日本").is_ok());
    assert!(validate_service_name("a b").is_err());
    assert!(validate_service_name("a+b").is_err());
}

#[test]
fn substring_tests() {
    assert!(str_contains("a..b", ".."));
    assert!(!str_contains("a.b", ".."));
    assert!(str_contains("abc", ""));
    assert!(str_starts_with("Bearer x", "Bearer "));
    assert!(!str_starts_with("Bear", "Bearer "));
    assert!(str_ends_with("x.service", ".service"));
    assert_eq!(join_from(&strings(&["a", "b", "c"]), 1, " "), "b c");
    assert_eq!(join_from(&strings(&["a"]), 1, " "), "");
}
