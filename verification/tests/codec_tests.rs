use evm_bridge::backend::ScillaBackend;
use evm_bridge::codec::{encode_query, encode_value, encode_varint_into};
use evm_bridge::values::{parse_word, word_from_u128};

fn word_with_low_byte(b: u8) -> evm_bridge::values::Word {
    word_from_u128(b as u128)
}

#[test]
fn varint_small_and_multibyte() {
    let mut out = Vec::new();
    encode_varint_into(0, &mut out);
    assert_eq!(out, vec![0]);
    let mut out = Vec::new();
    encode_varint_into(127, &mut out);
    assert_eq!(out, vec![127]);
    let mut out = Vec::new();
    encode_varint_into(128, &mut out);
    assert_eq!(out, vec![0x80, 0x01]);
    let mut out = Vec::new();
    encode_varint_into(300, &mut out);
    assert_eq!(out, vec![0xac, 0x02]);
    let mut out = Vec::new();
    encode_varint_into(u64::MAX, &mut out);
    assert_eq!(out, vec![0xff, 0xff, 0xff, 0xff, 0xff, 0xff, 0xff, 0xff, 0xff, 0x01]);
}

#[test]
fn scalar_query_message_bytes() {
    let backend = ScillaBackend::new("/tmp/node.sock");
    let q = backend.balance_query();
    let bytes = encode_query(&q);
    let mut expected = vec![0x0a, 0x08];
    expected.extend_from_slice(b"_balance");
    expected.extend_from_slice(&[0x10, 0x00]);
    assert_eq!(bytes, expected);
}

#[test]
fn map_query_message_bytes_carry_depth_and_key() {
    let backend = ScillaBackend::new("/tmp/node.sock");
    let key = word_with_low_byte(0x2a);
    let q = backend.storage_query(key);
    let bytes = encode_query(&q);
    let mut expected = vec![0x0a, 0x0c];
    expected.extend_from_slice(b"_evm_storage");
    expected.extend_from_slice(&[0x10, 0x01, 0x1a, 0x20]);
    let mut key_bytes = vec![0u8; 32];
    key_bytes[31] = 0x2a;
    expected.extend_from_slice(&key_bytes);
    assert_eq!(bytes, expected);
}

#[test]
fn value_message_bytes() {
    let value = word_with_low_byte(0x07);
    let bytes = encode_value(&value);
    let mut expected = vec![0x0a, 0x20];
    let mut value_bytes = vec![0u8; 32];
    value_bytes[31] = 0x07;
    expected.extend_from_slice(&value_bytes);
    assert_eq!(bytes, expected);
}

#[test]
fn storage_write_encoding_is_base64_of_messages() {
    let backend = ScillaBackend::new("/tmp/node.sock");
    let key = word_with_low_byte(0x2a);
    let value = word_with_low_byte(0x07);
    let (key_b64, value_b64) = backend.encode_storage(&key, &value);

    let expected_query = {
        let q = backend.storage_query(key);
        encode_query(&q)
    };
    assert_eq!(key_b64, base64::encode(&expected_query));
    assert_eq!(value_b64, base64::encode(&encode_value(&value)));
    // padded standard base64, four characters per started triple
    assert_eq!(key_b64.len(), (expected_query.len() + 2) / 3 * 4);
}

#[test]
fn address_transport_arg_is_lowercase_hex() {
    let backend = ScillaBackend::new("/tmp/node.sock");
    let addr =
        evm_bridge::values::parse_address("0x00000000000000000000000000000000000000AB").unwrap();
    assert_eq!(backend.address_arg(&addr), "00000000000000000000000000000000000000ab");
}

#[test]
fn block_hash_word_parses_big_endian() {
    let w = parse_word("00000000000000000000000000000000000000000000000000000000000080e8")
        .unwrap();
    assert_eq!(w.bytes[30], 0x80);
    assert_eq!(w.bytes[31], 0xe8);
}
