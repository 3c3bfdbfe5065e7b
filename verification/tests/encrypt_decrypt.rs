//! The HE and HG field layout.

use apc_proxy::handlers::thales::encrypt_decrypt::parse_key_and_data;

fn tak_single() -> Vec<u8> {
    b"1234567890ABCDEF".to_vec() // 16H
}
fn tak_double() -> Vec<u8> {
    let mut v = vec![b'U'];
    v.extend_from_slice(b"1234567890ABCDEF1234567890ABCDEF");
    v
}
fn data_block() -> &'static [u8] {
    b"AABBCCDDEE112233" // 16H
}

#[test]
fn he_parse_single_key() {
    let mut p = tak_single();
    p.extend_from_slice(data_block());
    let f = parse_key_and_data(&p, "HE").ok().unwrap();
    assert_eq!(f.key_id.raw, "1234567890ABCDEF");
    assert_eq!(f.data.as_str(), "AABBCCDDEE112233");
}

#[test]
fn he_parse_double_key() {
    let mut p = tak_double();
    p.extend_from_slice(data_block());
    let f = parse_key_and_data(&p, "HE").ok().unwrap();
    // parse_legacy_key returns the identifier including the 'U' prefix;
    // the key_map must be configured with the same form.
    assert_eq!(f.key_id.raw, "U1234567890ABCDEF1234567890ABCDEF");
    assert_eq!(f.data.as_str(), "AABBCCDDEE112233");
}

#[test]
fn he_parse_too_short_returns_error() {
    let mut p = tak_single();
    p.extend_from_slice(b"AABBCCDD"); // only 8H, need 16H
    assert!(parse_key_and_data(&p, "HE").is_err());
}
