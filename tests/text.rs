use relay_api::text::{parse_hex, parse_u64};

#[test]
fn hex_reads_bytes() {
    assert_eq!(parse_hex("0x"), Some(vec![]));
    assert_eq!(parse_hex("0x00ff10Ab"), Some(vec![0x00, 0xff, 0x10, 0xab]));
}

#[test]
fn hex_rejects_malformed() {
    assert_eq!(parse_hex(""), None);
    assert_eq!(parse_hex("00ff"), None);
    assert_eq!(parse_hex("0x0"), None);
    assert_eq!(parse_hex("0xzz"), None);
    assert_eq!(parse_hex("0X00"), None);
}

#[test]
fn decimal_u64_reads_digits() {
    assert_eq!(parse_u64("0"), Some(0));
    assert_eq!(parse_u64("9485504"), Some(9485504));
    assert_eq!(parse_u64("18446744073709551615"), Some(u64::MAX));
}

#[test]
fn decimal_u64_rejects_overflow_and_junk() {
    assert_eq!(parse_u64("18446744073709551616"), None);
    assert_eq!(parse_u64("99999999999999999999999"), None);
    assert_eq!(parse_u64(""), None);
    assert_eq!(parse_u64("-1"), None);
    assert_eq!(parse_u64("+1"), Some(1));
    assert_eq!(parse_u64("+"), None);
    assert_eq!(parse_u64("++1"), None);
    assert_eq!(parse_u64("12a"), None);
}
