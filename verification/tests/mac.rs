//! The C2, C4, M6 and M8 field layouts.

use apc_proxy::error::ProxyError;
use apc_proxy::handlers::thales::mac::{parse_c2_payload, parse_m6_payload};

// C2/C4 header: block number + key type + MAC mode + message type.
fn c2_payload(mac_mode: u8, key: &[u8], msg_hex: &[u8]) -> Vec<u8> {
    let mut p = vec![b'0', b'1', mac_mode, b'1']; // block '0', key type ZAK, mode, hex
    p.extend_from_slice(key);
    let byte_count = msg_hex.len() / 2;
    p.extend_from_slice(format!("{byte_count:04X}").as_bytes());
    p.extend_from_slice(msg_hex);
    p
}

#[test]
fn c2_parse_generate() {
    let key = b"1234567890ABCDEF"; // 16H single-length TAK/ZAK
    let p = c2_payload(b'0', key, b"DEADBEEF"); // mode '0' = X9.9 / ALG1
    let f = parse_c2_payload(&p, false).unwrap();
    assert_eq!(f.algorithm, "ISO9797_ALGORITHM1");
    assert_eq!(f.key_id.raw, "1234567890ABCDEF");
    assert_eq!(f.message_hex, "DEADBEEF");
    assert!(f.mac_to_verify.is_none());
    assert_eq!(f.mac_size_bytes, 4);
}

#[test]
fn c2_parse_u_prefixed_key() {
    let mut key = vec![b'U'];
    key.extend_from_slice(b"1234567890ABCDEF1234567890ABCDEF");
    let p = c2_payload(b'1', &key, b"AABBCCDD"); // mode '1' = X9.19 / ALG3
    let f = parse_c2_payload(&p, false).unwrap();
    assert_eq!(f.algorithm, "ISO9797_ALGORITHM3");
    assert_eq!(f.key_id.raw, "U1234567890ABCDEF1234567890ABCDEF");
}

#[test]
fn c4_parse_verify() {
    let key = b"1234567890ABCDEF";
    let mut p = c2_payload(b'1', key, b"DEADBEEF");
    p.extend_from_slice(b"AABBCCDD"); // MAC 8H
    let f = parse_c2_payload(&p, true).unwrap();
    assert_eq!(f.algorithm, "ISO9797_ALGORITHM3");
    assert_eq!(f.mac_to_verify, Some("AABBCCDD".to_string()));
}

#[test]
fn c2_rejects_continuation_block() {
    let key = b"1234567890ABCDEF";
    let mut p = c2_payload(b'0', key, b"DEADBEEF");
    p[0] = b'1'; // first-block continuation
    assert!(matches!(
        parse_c2_payload(&p, false),
        Err(ProxyError::UnsupportedMacMode(_))
    ));
}

fn m6_payload(algo: u8, mac_size: u8, key: &[u8], msg_hex: &[u8]) -> Vec<u8> {
    let mut p = vec![b'0', b'1', mac_size, algo, b'1']; // mode+infmt+macsize+algo+pad
    p.extend_from_slice(b"MA1"); // key type 3H
    p.extend_from_slice(key);
    let byte_count = msg_hex.len() / 2;
    p.extend_from_slice(format!("{byte_count:04X}").as_bytes());
    p.extend_from_slice(msg_hex);
    p
}

#[test]
fn m6_parse_generate_alg1() {
    let key = b"1234567890ABCDEF"; // 16H single-length
    let p = m6_payload(b'1', b'0', key, b"DEADBEEF");
    let f = parse_m6_payload(&p, false).unwrap();
    assert_eq!(f.algorithm, "ISO9797_ALGORITHM1");
    assert_eq!(f.key_id.raw, "1234567890ABCDEF");
    assert_eq!(f.message_hex, "DEADBEEF");
    assert_eq!(f.mac_size_bytes, 4);
    assert!(f.mac_to_verify.is_none());
}

#[test]
fn m6_parse_generate_cmac() {
    let key = b"1234567890ABCDEF"; // 16H
    let p = m6_payload(b'6', b'0', key, b"AABBCC");
    let f = parse_m6_payload(&p, false).unwrap();
    assert_eq!(f.algorithm, "CMAC");
}

#[test]
fn m8_parse_verify_full_double_length_mac() {
    let key = b"1234567890ABCDEF"; // 16H
    let mut p = m6_payload(b'3', b'1', key, b"DEADBEEF"); // mac_size='1' → 8 bytes (16 hex)
    p.extend_from_slice(b"AABBCCDD11223344"); // 16H = 8-byte MAC
    let f = parse_m6_payload(&p, true).unwrap();
    assert_eq!(f.algorithm, "ISO9797_ALGORITHM3");
    assert_eq!(f.mac_size_bytes, 8);
    assert_eq!(f.mac_to_verify, Some("AABBCCDD11223344".to_string()));
}

#[test]
fn m6_parse_double_length_key() {
    let mut key = vec![b'U'];
    key.extend_from_slice(b"1234567890ABCDEF1234567890ABCDEF");
    let p = m6_payload(b'1', b'0', &key, b"AABBCCDD");
    let f = parse_m6_payload(&p, false).unwrap();
    assert_eq!(f.key_id.raw, "U1234567890ABCDEF1234567890ABCDEF");
}

#[test]
fn m6_rejects_bad_algo() {
    let key = b"1234567890ABCDEF1234567890ABCDEF";
    let p = m6_payload(b'2', b'0', key, b"AABB"); // algo '2' invalid for M6
    assert!(matches!(
        parse_m6_payload(&p, false),
        Err(ProxyError::UnsupportedMacMode(_))
    ));
}

#[test]
fn m6_rejects_continuation_mode() {
    let key = b"1234567890ABCDEF";
    let mut p = m6_payload(b'1', b'0', key, b"AABB"); // algo byte '1'=ALG1 but mode byte overridden
    p[0] = b'1'; // set mode byte to continuation
    assert!(matches!(
        parse_m6_payload(&p, false),
        Err(ProxyError::UnsupportedMacMode(_))
    ));
}

#[test]
fn m6_rejects_non_hex_input_format() {
    let key = b"1234567890ABCDEF";
    let mut p = m6_payload(b'1', b'0', key, b"AABB");
    p[1] = b'0'; // set input format to non-hex
    assert!(matches!(
        parse_m6_payload(&p, false),
        Err(ProxyError::MalformedPayload(_))
    ));
}
