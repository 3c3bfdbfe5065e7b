//! The MY field layout.

use apc_proxy::error::ProxyError;
use apc_proxy::handlers::thales::mac_translate::parse_my;

fn single_key() -> Vec<u8> {
    b"1234567890ABCDEF".to_vec() // 16H single-length
}

// Test wire-builder: each parameter is a distinct MY protocol field, so a
// bundling struct would only obscure the payload layout.
#[allow(clippy::too_many_arguments)]
fn build_my_payload(
    in_mac_size: u8,
    in_algo: u8,
    in_key: &[u8],
    out_mac_size: u8,
    out_algo: u8,
    out_key: &[u8],
    msg_hex: &[u8],
    in_mac: &[u8],
) -> Vec<u8> {
    let mut v = vec![b'0', b'1', in_mac_size, in_algo, b'1']; // inbound header
    v.extend_from_slice(b"MA1"); // in key type
    v.extend_from_slice(in_key);
    v.extend_from_slice(&[out_mac_size, out_algo, b'1']); // outbound header
    v.extend_from_slice(b"MA1"); // out key type
    v.extend_from_slice(out_key);
    let byte_count = msg_hex.len() / 2;
    v.extend_from_slice(format!("{byte_count:04X}").as_bytes());
    v.extend_from_slice(msg_hex);
    v.extend_from_slice(in_mac);
    v
}

#[test]
fn my_parse_full_mac() {
    // in: ALG3, full MAC (4B→8H); out: CMAC, full MAC
    let p = build_my_payload(
        b'0',
        b'3',
        &single_key(),
        b'0',
        b'6',
        &single_key(),
        b"DEADBEEF",
        b"AABBCCDD",
    );
    let f = parse_my(&p).unwrap();
    assert_eq!(f.in_algo, "ISO9797_ALGORITHM3");
    assert_eq!(f.in_key_id.raw, "1234567890ABCDEF");
    assert_eq!(f.inbound_mac.len(), 8, "full MAC = 4 bytes = 8 hex chars");
    assert_eq!(f.out_algo, "CMAC");
    assert_eq!(f.out_mac_size, 4);
    assert_eq!(f.message_hex, "DEADBEEF");
    assert_eq!(f.inbound_mac, "AABBCCDD");
}

#[test]
fn my_parse_half_mac() {
    // in: half MAC (2B→4H); out: half MAC
    let p = build_my_payload(
        b'1',
        b'1',
        &single_key(),
        b'1',
        b'1',
        &single_key(),
        b"AABB",
        b"CCDD",
    );
    let f = parse_my(&p).unwrap();
    assert_eq!(f.out_mac_size, 2);
    assert_eq!(f.inbound_mac.len(), 4, "half MAC = 2 bytes = 4 hex chars");
    assert_eq!(f.inbound_mac, "CCDD");
}

#[test]
fn my_parse_u_prefix_keys() {
    let mut key = vec![b'U'];
    key.extend_from_slice(b"1234567890ABCDEF1234567890ABCDEF");
    let p = build_my_payload(b'0', b'1', &key, b'0', b'1', &key, b"AABB", b"CCDDCCDD");
    let f = parse_my(&p).unwrap();
    assert_eq!(f.in_key_id.raw, "U1234567890ABCDEF1234567890ABCDEF");
    assert_eq!(f.out_key_id.raw, "U1234567890ABCDEF1234567890ABCDEF");
}

#[test]
fn my_rejects_bad_algo() {
    let p = build_my_payload(
        b'0',
        b'2',
        &single_key(), // algo '2' invalid
        b'0',
        b'1',
        &single_key(),
        b"AABB",
        b"CCDDCCDD",
    );
    assert!(matches!(
        parse_my(&p),
        Err(ProxyError::UnsupportedMacMode(_))
    ));
}

#[test]
fn my_rejects_continuation_mode() {
    let mut p = build_my_payload(
        b'0',
        b'1',
        &single_key(),
        b'0',
        b'1',
        &single_key(),
        b"AABB",
        b"CCDDCCDD",
    );
    p[0] = b'1'; // set mode byte to continuation
    assert!(matches!(
        parse_my(&p),
        Err(ProxyError::UnsupportedMacMode(_))
    ));
}
