//! The K2 and KS field layouts.

use apc_proxy::error::ProxyError;
use apc_proxy::handlers::thales::cap_arqc::parse_cap;

fn single_key() -> Vec<u8> {
    b"1234567890ABCDEF".to_vec()
}

// PAN: 123456789012, Seq: 01 → BCD: 12 34 56 78 90 12 | 01 FF
fn pan_bcd() -> [u8; 8] {
    [0x12, 0x34, 0x56, 0x78, 0x90, 0x12, 0x01, 0xFF]
}

fn k2_payload(key: &[u8], txn: &[u8]) -> Vec<u8> {
    let mut v = b"00E".to_vec();
    v.extend_from_slice(key);
    v.extend_from_slice(&pan_bcd());
    v.extend_from_slice(&[0x00, 0x01]); // ATC 2B
    v.extend_from_slice(&[0xDE, 0xAD, 0xBE, 0xEF]); // UN 4B
    let len = txn.len() as u16;
    v.extend_from_slice(&len.to_be_bytes());
    v.extend_from_slice(txn);
    v.push(0x3B);
    v.extend_from_slice(&[0xAA, 0xBB, 0xCC, 0xDD, 0xEE, 0xFF, 0x00, 0x11]);
    v
}

fn ks_payload(key: &[u8], txn: &[u8]) -> Vec<u8> {
    let mut v = b"00E".to_vec();
    v.extend_from_slice(key);
    v.extend_from_slice(&pan_bcd());
    v.extend_from_slice(&[0x00, 0x01]); // ATC 2B (no UN)
    let len = txn.len() as u16;
    v.extend_from_slice(&len.to_be_bytes());
    v.extend_from_slice(txn);
    v.push(0x3B);
    v.extend_from_slice(&[0xAA, 0xBB, 0xCC, 0xDD, 0xEE, 0xFF, 0x00, 0x11]);
    v
}

#[test]
fn k2_parse_ok() {
    let payload = k2_payload(&single_key(), &[0xDE, 0xAD]);
    let f = parse_cap(&payload, true).unwrap();
    assert_eq!(f.key_id.raw, "1234567890ABCDEF");
    assert_eq!(f.pan, "123456789012");
    assert_eq!(f.pan_seq, "01");
    assert_eq!(f.atc, "0001");
    assert_eq!(f.unpredictable_number, Some("DEADBEEF".to_string()));
    assert_eq!(f.txn_data.as_str(), "DEAD");
    assert_eq!(f.cryptogram, "AABBCCDDEEFF0011");
}

#[test]
fn ks_parse_ok() {
    let payload = ks_payload(&single_key(), &[0xCA, 0xFE]);
    let f = parse_cap(&payload, false).unwrap();
    assert_eq!(f.key_id.raw, "1234567890ABCDEF");
    assert_eq!(f.pan, "123456789012");
    assert_eq!(f.atc, "0001");
    assert!(f.unpredictable_number.is_none());
    assert_eq!(f.txn_data.as_str(), "CAFE");
    assert_eq!(f.cryptogram, "AABBCCDDEEFF0011");
}

#[test]
fn k2_rejects_missing_un() {
    // Build a payload that stops before UN
    let mut v = b"00E".to_vec();
    v.extend_from_slice(&single_key());
    v.extend_from_slice(&pan_bcd());
    v.extend_from_slice(&[0x00, 0x01]); // ATC only — no UN
    assert!(matches!(
        parse_cap(&v, true),
        Err(ProxyError::MalformedPayload(_))
    ));
}

#[test]
fn ks_rejects_missing_delimiter() {
    let mut payload = ks_payload(&single_key(), &[0xDE]);
    let delim_pos = payload.len() - 9;
    payload[delim_pos] = 0x00;
    assert!(matches!(
        parse_cap(&payload, false),
        Err(ProxyError::MalformedPayload(_))
    ));
}

#[test]
fn k2_parse_double_key() {
    let mut key = vec![b'U'];
    key.extend_from_slice(b"1234567890ABCDEF1234567890ABCDEF");
    let payload = k2_payload(&key, &[0xAB]);
    let f = parse_cap(&payload, true).unwrap();
    assert_eq!(f.key_id.raw, "U1234567890ABCDEF1234567890ABCDEF");
}
