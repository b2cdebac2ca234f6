use rtget::text::{decimal, parse_u64, same_text, starts_with};

#[test]
fn decimal_numerals() {
    assert_eq!(decimal(0), "0");
    assert_eq!(decimal(7), "7");
    assert_eq!(decimal(10), "10");
    assert_eq!(decimal(1024), "1024");
    assert_eq!(decimal(u64::MAX), "18446744073709551615");
}

#[test]
fn numerals_are_read_back() {
    assert_eq!(parse_u64("0"), Some(0));
    assert_eq!(parse_u64("1024"), Some(1024));
    assert_eq!(parse_u64("+12"), Some(12));
    assert_eq!(parse_u64("0012"), Some(12));
    assert_eq!(parse_u64("18446744073709551615"), Some(u64::MAX));
    assert_eq!(parse_u64("18446744073709551616"), None);
    assert_eq!(parse_u64(""), None);
    assert_eq!(parse_u64("+"), None);
    assert_eq!(parse_u64("-1"), None);
    assert_eq!(parse_u64("12a"), None);
    assert_eq!(parse_u64(" 12"), None);
    assert_eq!(parse_u64("1 2"), None);
    assert_eq!(parse_u64("١٢"), None);
    for n in [0u64, 9, 10, 99, 100, 12345678901234567890] {
        assert_eq!(parse_u64(&decimal(n)), Some(n));
    }
}

#[test]
fn prefixes_and_equality() {
    assert!(starts_with("bytes 0-9/100", "bytes 0-9/"));
    assert!(starts_with("abc", ""));
    assert!(starts_with("abc", "abc"));
    assert!(!starts_with("ab", "abc"));
    assert!(!starts_with("bytes 0-99/100", "bytes 0-9/"));
    assert!(starts_with("héllo wörld", "héllo"));
    assert!(same_text("--url", "--url"));
    assert!(!same_text("--url", "--urL"));
    assert!(!same_text("", "a"));
}
