//! The M0, M2 and M4 field layouts.

use apc_proxy::error::ProxyError;
use apc_proxy::handlers::thales::international_encrypt::parse_m0_fields;

fn ecb_hex_payload(key_type: &[u8], key: &[u8], data: &[u8]) -> Vec<u8> {
    // Mode='00' + input_fmt='1' + output_fmt='1' + key_type(3H) + key + len(4H) + data
    let mut v = b"00".to_vec(); // ECB
    v.push(b'1'); // input hex
    v.push(b'1'); // output hex
    v.extend_from_slice(key_type);
    v.extend_from_slice(key);
    let byte_count = data.len() / 2; // data is already hex chars
    v.extend_from_slice(format!("{byte_count:04X}").as_bytes());
    v.extend_from_slice(data);
    v
}

#[test]
fn m0_parse_ecb_hex() {
    let payload = ecb_hex_payload(b"00B", b"1234567890ABCDEF", b"AABBCCDDEE112233");
    let result = parse_m0_fields(&payload);
    assert!(result.is_ok());
    let f = result.ok().unwrap();
    assert_eq!(f.key_id.raw, "1234567890ABCDEF");
    assert_eq!(f.data.as_str(), "AABBCCDDEE112233");
}

#[test]
fn m0_rejects_cbc_mode() {
    let mut payload = b"01".to_vec(); // CBC mode
    payload.push(b'1');
    payload.push(b'1');
    payload.extend_from_slice(b"00B");
    payload.extend_from_slice(b"1234567890ABCDEF");
    payload.extend_from_slice(b"00080000000000000000"); // len + data
    let err = parse_m0_fields(&payload).err().unwrap();
    assert!(matches!(err, ProxyError::MalformedPayload(_)));
}

#[test]
fn m0_rejects_binary_input_format() {
    let mut payload = b"00".to_vec(); // ECB
    payload.push(b'0'); // binary — rejected
    payload.push(b'1');
    payload.extend_from_slice(b"00B1234567890ABCDEF00080000000000000000");
    let err = parse_m0_fields(&payload).err().unwrap();
    assert!(matches!(err, ProxyError::MalformedPayload(_)));
}

#[test]
fn m0_parse_double_length_key() {
    let mut key = vec![b'U'];
    key.extend_from_slice(b"1234567890ABCDEF1234567890ABCDEF");
    let payload = ecb_hex_payload(b"00B", &key, b"AABBCCDDEE112233");
    let f = parse_m0_fields(&payload).ok().unwrap();
    assert_eq!(f.key_id.raw, "U1234567890ABCDEF1234567890ABCDEF");
}
