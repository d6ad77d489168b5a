use oxideforms::num::{i64_to_string, parse_i64_str, parse_usize_str, u128_to_string, usize_to_string};
use oxideforms::text::{
    join_strings, replace_char_str, split_once_str, str_eq, str_is_blank, str_starts_with,
    to_ascii_lower, trim_str,
};

#[test]
fn trim_removes_unicode_whitespace() {
    assert_eq!(trim_str("  a b \t\n"), "a b");
    assert_eq!(trim_str("\u{3000}x\u{a0}"), "x");
    assert_eq!(trim_str("   "), "");
    assert_eq!(trim_str(""), "");
    assert!(str_is_blank(" \r\n"));
    assert!(!str_is_blank(" x "));
}

#[test]
fn split_once_at_first_separator() {
    assert_eq!(split_once_str("a=b=c", '='), Some(("a", "b=c")));
    assert_eq!(split_once_str("abc", '='), None);
    assert_eq!(split_once_str("=x", '='), Some(("", "x")));
}

#[test]
fn case_and_replace() {
    assert_eq!(to_ascii_lower("PT_BR Ä"), "pt_br Ä");
    assert_eq!(replace_char_str("pt_br_x", '_', '-'), "pt-br-x");
    assert!(str_eq("ab", "ab"));
    assert!(!str_eq("ab", "abc"));
    assert!(str_starts_with("/path", "/"));
    assert!(!str_starts_with("", "/"));
}

#[test]
fn join_with_separator() {
    let parts = vec!["a".to_string(), "b".to_string(), "c".to_string()];
    assert_eq!(join_strings(&parts, ", "), "a, b, c");
    assert_eq!(join_strings(&Vec::new(), ", "), "");
}

#[test]
fn parse_i64_like_std() {
    for s in ["0", "42", "-42", "+7", "9223372036854775807", "-9223372036854775808", "007"] {
        assert_eq!(parse_i64_str(s), s.parse::<i64>().ok(), "{s}");
    }
    for s in ["", "-", "+", "9223372036854775808", "-9223372036854775809", " 1", "1a", "--1", "+-1"] {
        assert_eq!(parse_i64_str(s), None, "{s}");
        assert!(s.parse::<i64>().is_err());
    }
}

#[test]
fn parse_usize_like_std() {
    assert_eq!(parse_usize_str("3"), Some(3));
    assert_eq!(parse_usize_str("+3"), Some(3));
    assert_eq!(parse_usize_str("-0"), None);
    assert_eq!(parse_usize_str(""), None);
    assert_eq!(parse_usize_str("18446744073709551615"), Some(usize::MAX));
    assert_eq!(parse_usize_str("18446744073709551616"), None);
}

#[test]
fn decimal_formatting() {
    assert_eq!(i64_to_string(0), "0");
    assert_eq!(i64_to_string(-120), "-120");
    assert_eq!(i64_to_string(i64::MIN), i64::MIN.to_string());
    assert_eq!(i64_to_string(i64::MAX), i64::MAX.to_string());
    assert_eq!(usize_to_string(1001), "1001");
    assert_eq!(u128_to_string(u128::MAX), u128::MAX.to_string());
}

#[test]
fn decimal_text_parses_back() {
    for n in [0i64, 1, -1, 42, -9000, 1_700_000_000, i64::MAX, i64::MIN] {
        assert_eq!(parse_i64_str(&i64_to_string(n)), Some(n));
    }
}
