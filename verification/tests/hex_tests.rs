use evm_bridge::hexstr::{hex_decode, hex_encode};

#[test]
fn decode_then_encode_round_trips_canonical() {
    let decoded = hex_decode("0a1bff").unwrap();
    assert_eq!(decoded, vec![0x0a, 0x1b, 0xff]);
    assert_eq!(hex_encode(&decoded), "0a1bff");
}

#[test]
fn decode_uppercase_encodes_to_canonical_lowercase() {
    let decoded = hex_decode("DEADBEEF").unwrap();
    assert_eq!(decoded, vec![0xde, 0xad, 0xbe, 0xef]);
    assert_eq!(hex_encode(&decoded), "deadbeef");
}

#[test]
fn encode_then_decode_round_trips_bytes() {
    let bytes: Vec<u8> = (0u16..=255).map(|b| b as u8).collect();
    let text = hex_encode(&bytes);
    assert_eq!(hex_decode(&text).unwrap(), bytes);
}

#[test]
fn empty_string_round_trips() {
    assert_eq!(hex_decode("").unwrap(), Vec::<u8>::new());
    assert_eq!(hex_encode(&[]), "");
}

#[test]
fn invalid_digit_is_rejected() {
    assert!(hex_decode("zz").is_none());
    assert!(hex_decode("0g").is_none());
}

#[test]
fn odd_length_is_rejected() {
    assert!(hex_decode("abc").is_none());
    assert!(hex_decode("f").is_none());
}

#[test]
fn non_ascii_is_rejected() {
    assert!(hex_decode("aé").is_none());
}

#[test]
fn encode_agrees_with_hex_crate() {
    let samples: Vec<Vec<u8>> = vec![
        vec![],
        vec![0],
        vec![0xff],
        vec![1, 2, 3, 4, 5],
        (0u16..=255).map(|b| b as u8).collect(),
    ];
    for bytes in samples {
        assert_eq!(hex_encode(&bytes), hex::encode(&bytes));
        assert_eq!(hex_decode(&hex::encode(&bytes)).unwrap(), hex::decode(hex::encode(&bytes)).unwrap());
    }
}
