use evm_bridge::values::{parse_address, parse_uint, parse_word, word_from_u128, word_zero};

#[test]
fn parse_address_plain_and_prefixed() {
    let plain = parse_address("00000000000000000000000000000000000000aa").unwrap();
    assert_eq!(plain.bytes.len(), 20);
    assert_eq!(plain.bytes[19], 0xaa);
    let prefixed = parse_address("0x00000000000000000000000000000000000000aa").unwrap();
    assert_eq!(prefixed.bytes, plain.bytes);
}

#[test]
fn parse_address_wrong_length_rejected() {
    assert!(parse_address("00aa").is_none());
    assert!(parse_address("").is_none());
    // 21 bytes
    assert!(parse_address("000000000000000000000000000000000000000000").is_none());
}

#[test]
fn parse_address_bad_digit_rejected() {
    assert!(parse_address("00000000000000000000000000000000000000zz").is_none());
}

#[test]
fn parse_word_needs_exactly_64_digits() {
    let w = parse_word("0000000000000000000000000000000000000000000000000000000000000007")
        .unwrap();
    assert_eq!(w.bytes.len(), 32);
    assert_eq!(w.bytes[31], 7);
    assert!(parse_word("07").is_none());
}

#[test]
fn parse_uint_decimal() {
    let w = parse_uint("33000").unwrap();
    assert_eq!(w.bytes[30], 0x80);
    assert_eq!(w.bytes[31], 0xe8);
    assert_eq!(&w.bytes[..30], &[0u8; 30]);
}

#[test]
fn parse_uint_hex() {
    let w = parse_uint("0x80e8").unwrap();
    assert_eq!(w.bytes[30], 0x80);
    assert_eq!(w.bytes[31], 0xe8);
    let zero = parse_uint("0x0").unwrap();
    assert_eq!(zero.bytes, vec![0u8; 32]);
}

#[test]
fn parse_uint_rejects_garbage() {
    assert!(parse_uint("").is_none());
    assert!(parse_uint("0x").is_none());
    assert!(parse_uint("12a").is_none());
    assert!(parse_uint("-1").is_none());
    // only the lowercase prefix marks a hex literal
    assert!(parse_uint("0X1").is_none());
}

#[test]
fn parse_uint_largest_values() {
    // largest 256-bit value, in hex and in decimal
    let max_hex = parse_uint(
        "0xffffffffffffffffffffffffffffffffffffffffffffffffffffffffffffffff",
    )
    .unwrap();
    assert_eq!(max_hex.bytes, vec![0xffu8; 32]);
    let max_dec = parse_uint(
        "115792089237316195423570985008687907853269984665640564039457584007913129639935",
    )
    .unwrap();
    assert_eq!(max_dec.bytes, vec![0xffu8; 32]);
    // one past the largest decimal value overflows
    assert!(parse_uint(
        "115792089237316195423570985008687907853269984665640564039457584007913129639936"
    )
    .is_none());
    // more than 64 hex digits is rejected outright
    assert!(parse_uint(
        "0x10000000000000000000000000000000000000000000000000000000000000000"
    )
    .is_none());
}

#[test]
fn word_from_u128_is_big_endian() {
    let w = word_from_u128(0x0102030405060708090a0b0c0d0e0f10u128);
    assert_eq!(&w.bytes[..16], &[0u8; 16]);
    let tail: Vec<u8> = (1u8..=16).collect();
    assert_eq!(&w.bytes[16..], tail.as_slice());
    assert_eq!(word_zero().bytes, vec![0u8; 32]);
}
