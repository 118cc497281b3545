use echo_core::decimal::{parse_u32, u128_to_decimal, u32_to_decimal, u64_to_decimal, usize_to_decimal};

#[test]
fn renders_zero() {
    assert_eq!(u128_to_decimal(0), "0");
}

#[test]
fn renders_small_and_large_numbers() {
    assert_eq!(u128_to_decimal(7), "7");
    assert_eq!(u128_to_decimal(10), "10");
    assert_eq!(u128_to_decimal(12345), "12345");
    assert_eq!(
        u128_to_decimal(218922995834555169026),
        "218922995834555169026"
    );
    assert_eq!(u128_to_decimal(u128::MAX), "340282366920938463463374607431768211455");
}

#[test]
fn renders_other_widths() {
    assert_eq!(u64_to_decimal(u64::MAX), "18446744073709551615");
    assert_eq!(u32_to_decimal(4294967295), "4294967295");
    assert_eq!(usize_to_decimal(500), "500");
}

#[test]
fn parses_plain_digits() {
    assert_eq!(parse_u32(b"0"), Some(0));
    assert_eq!(parse_u32(b"123"), Some(123));
    assert_eq!(parse_u32(b"10000"), Some(10000));
}

#[test]
fn parses_leading_plus() {
    assert_eq!(parse_u32(b"+123"), Some(123));
    assert_eq!(parse_u32(b"+"), None);
    assert_eq!(parse_u32(b"++1"), None);
}

#[test]
fn rejects_empty_and_nondigits() {
    assert_eq!(parse_u32(b""), None);
    assert_eq!(parse_u32(b"abc"), None);
    assert_eq!(parse_u32(b"12a"), None);
    assert_eq!(parse_u32(b"-5"), None);
    assert_eq!(parse_u32(b" 5"), None);
}

#[test]
fn respects_the_32_bit_range() {
    assert_eq!(parse_u32(b"4294967295"), Some(u32::MAX));
    assert_eq!(parse_u32(b"4294967296"), None);
    assert_eq!(parse_u32(b"99999999999999999999"), None);
}

#[test]
fn parse_agrees_with_std() {
    for s in ["0", "42", "+7", "4294967295", "4294967296", "", "x", "007"] {
        assert_eq!(parse_u32(s.as_bytes()), s.parse::<u32>().ok(), "input {:?}", s);
    }
}
