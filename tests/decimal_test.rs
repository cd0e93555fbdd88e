use scheduler::decimal::{format_u64, parse_u64};

#[test]
fn formats_decimal_text() {
    assert_eq!(format_u64(0), "0");
    assert_eq!(format_u64(7), "7");
    assert_eq!(format_u64(10), "10");
    assert_eq!(format_u64(604800), "604800");
    assert_eq!(format_u64(u64::MAX), "18446744073709551615");
}

#[test]
fn parses_decimal_text() {
    assert_eq!(parse_u64("0"), Some(0));
    assert_eq!(parse_u64("007"), Some(7));
    assert_eq!(parse_u64("18446744073709551615"), Some(u64::MAX));
    assert_eq!(parse_u64("18446744073709551616"), None);
    assert_eq!(parse_u64(""), None);
    assert_eq!(parse_u64("12a"), None);
    assert_eq!(parse_u64("-1"), None);
    assert_eq!(parse_u64(" 1"), None);
}

#[test]
fn parse_reads_back_format() {
    for n in [0u64, 1, 9, 10, 99, 100, 12345, 2592000, u64::MAX] {
        assert_eq!(parse_u64(&format_u64(n)), Some(n));
    }
}
