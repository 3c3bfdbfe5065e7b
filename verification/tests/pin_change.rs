//! The DU and CU field layouts.

use apc_proxy::error::ProxyError;
use apc_proxy::handlers::thales::pin_change::{parse_cu, parse_du};

fn single_key() -> Vec<u8> {
    b"1234567890ABCDEF".to_vec()
}

fn double_key() -> Vec<u8> {
    b"1234567890ABCDEF1234567890ABCDEF".to_vec()
}

fn build_du_payload(enc_key: &[u8], pvk: &[u8]) -> Vec<u8> {
    let mut v = enc_key.to_vec();
    v.extend_from_slice(pvk);
    v.extend_from_slice(b"04"); // max pin len
    v.extend_from_slice(b"04"); // min pin len
    v.extend_from_slice(b"1234567890ABCDEF"); // current PIN block 16H
    v.extend_from_slice(b"01"); // pin block format
    v.extend_from_slice(b"123456789012"); // account 12N
    v.extend_from_slice(b"1234567890123456"); // decim table 16H
    v.extend_from_slice(b"NNNNNNNNNNNN"); // pin val data 12A
    v.extend_from_slice(b"123456FFFFFF"); // current offset 12H
    v.extend_from_slice(b"FEDCBA9876543210"); // new PIN block 16H
    v
}

fn build_cu_payload(enc_key: &[u8], pvk: &[u8]) -> Vec<u8> {
    let mut v = enc_key.to_vec();
    v.extend_from_slice(pvk);
    v.extend_from_slice(b"04"); // max pin len
    v.extend_from_slice(b"04"); // min pin len
    v.extend_from_slice(b"1234567890ABCDEF"); // current PIN block 16H
    v.extend_from_slice(b"01"); // pin block format
    v.extend_from_slice(b"123456789012"); // account 12N
    v.extend_from_slice(b"1"); // PVKI
    v.extend_from_slice(b"1234"); // current PVV 4N
    v.extend_from_slice(b"FEDCBA9876543210"); // new PIN block 16H
    v
}

#[test]
fn du_parse_single_keys() {
    let payload = build_du_payload(&single_key(), &single_key());
    let f = parse_du(&payload).unwrap();
    assert_eq!(f.enc_key_id.raw, "1234567890ABCDEF");
    assert_eq!(f.pvk_id.raw, "1234567890ABCDEF");
    assert_eq!(f.cur_pin_block.as_str(), "1234567890ABCDEF");
    assert_eq!(f.account, "123456789012");
    assert_eq!(f.decim_table, "1234567890123456");
    assert_eq!(f.pin_val_data, "NNNNNNNNNNNN");
    assert_eq!(f.cur_offset, "123456FFFFFF");
    assert_eq!(f.new_pin_block.as_str(), "FEDCBA9876543210");
}

#[test]
fn du_parse_double_enc_key() {
    let mut key = vec![b'U'];
    key.extend_from_slice(b"1234567890ABCDEF1234567890ABCDEF");
    let payload = build_du_payload(&key, &single_key());
    let f = parse_du(&payload).unwrap();
    assert_eq!(f.enc_key_id.raw, "U1234567890ABCDEF1234567890ABCDEF");
    assert_eq!(f.pvk_id.raw, "1234567890ABCDEF");
    assert_eq!(f.new_pin_block.as_str(), "FEDCBA9876543210");
}

#[test]
fn du_rejects_short_payload() {
    let payload = b"tooshort".to_vec();
    assert!(matches!(
        parse_du(&payload),
        Err(ProxyError::MalformedPayload(_))
    ));
}

#[test]
fn cu_parse_single_enc_double_pvk() {
    let payload = build_cu_payload(&single_key(), &double_key());
    let f = parse_cu(&payload).unwrap();
    assert_eq!(f.enc_key_id.raw, "1234567890ABCDEF");
    assert_eq!(f.pvk_id.raw, "1234567890ABCDEF1234567890ABCDEF");
    assert_eq!(f.cur_pin_block.as_str(), "1234567890ABCDEF");
    assert_eq!(f.account, "123456789012");
    assert_eq!(f.pvki, 1);
    assert_eq!(f.cur_pvv, "1234");
    assert_eq!(f.new_pin_block.as_str(), "FEDCBA9876543210");
}

#[test]
fn cu_parse_u_prefix_pvk() {
    let mut pvk = vec![b'U'];
    pvk.extend_from_slice(b"1234567890ABCDEF1234567890ABCDEF");
    let payload = build_cu_payload(&single_key(), &pvk);
    let f = parse_cu(&payload).unwrap();
    assert_eq!(f.pvk_id.raw, "U1234567890ABCDEF1234567890ABCDEF");
    assert_eq!(f.new_pin_block.as_str(), "FEDCBA9876543210");
}

#[test]
fn cu_rejects_invalid_pvki() {
    let mut payload = build_cu_payload(&single_key(), &double_key());
    // The PVKI byte is at: single_key(16) + double_key(32) + 4(len) + 16(pin) + 2(fmt) + 12(acct) = 82
    let pvki_pos = 16 + 32 + 4 + 16 + 2 + 12;
    payload[pvki_pos] = b'X';
    assert!(matches!(
        parse_cu(&payload),
        Err(ProxyError::MalformedPayload(_))
    ));
}

#[test]
fn cu_rejects_short_payload() {
    let payload = b"tooshort".to_vec();
    assert!(matches!(
        parse_cu(&payload),
        Err(ProxyError::MalformedPayload(_))
    ));
}
