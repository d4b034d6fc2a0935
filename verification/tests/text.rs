use grat::text::{str_contains, str_eq, str_is_blank, u32_to_decimal};

#[test]
fn decimal_notation() {
    assert_eq!(u32_to_decimal(0), "0");
    assert_eq!(u32_to_decimal(7), "7");
    assert_eq!(u32_to_decimal(10), "10");
    assert_eq!(u32_to_decimal(1006), "1006");
    assert_eq!(u32_to_decimal(u32::MAX), "4294967295");
}

#[test]
fn substrings() {
    assert!(str_contains("abcdef", "cde"));
    assert!(str_contains("abc", ""));
    assert!(str_contains("abc", "abc"));
    assert!(!str_contains("abc", "abcd"));
    assert!(!str_contains("abcabd", "abe"));
    assert!(str_contains("héllo wörld", "ö"));
}

#[test]
fn blank_and_equal() {
    assert!(str_is_blank(""));
    assert!(str_is_blank(" \t\r\n\u{3000}"));
    assert!(!str_is_blank(" x "));
    assert!(str_eq("same", "same"));
    assert!(!str_eq("same", "sam"));
    assert!(!str_eq("same", "sane"));
}
