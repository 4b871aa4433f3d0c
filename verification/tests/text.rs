use cuttle::text::{decimal_string, from_chars, is_whitespace, to_chars, trim_start_chars};

#[test]
fn decimals() {
    assert_eq!(decimal_string(0), "0");
    assert_eq!(decimal_string(4096), "4096");
    assert_eq!(decimal_string(u64::MAX), "18446744073709551615");
}

#[test]
fn chars_round_trip_and_trim() {
    let chars = to_chars(" \t héllo");
    assert_eq!(from_chars(&chars), " \t héllo");
    assert_eq!(from_chars(&trim_start_chars(&chars)), "héllo");
    assert!(is_whitespace('\u{2003}'));
    assert!(!is_whitespace('x'));
}
