//! The IBM 3624 and Visa PVV field layouts.

use apc_proxy::error::ProxyError;
use apc_proxy::handlers::thales::pin_verify_non_dukpt::{parse_ibm, parse_visa};

fn single_key() -> Vec<u8> {
    b"1234567890ABCDEF".to_vec() // 16H
}

fn double_key() -> Vec<u8> {
    b"1234567890ABCDEF1234567890ABCDEF".to_vec() // 32H
}

fn build_ibm_payload(enc_key: &[u8], pvk: &[u8]) -> Vec<u8> {
    let mut v = enc_key.to_vec();
    v.extend_from_slice(pvk);
    v.extend_from_slice(b"04"); // max pin len
    v.extend_from_slice(b"04"); // min pin len
    v.extend_from_slice(b"1234567890ABCDEF"); // PIN block 16H
    v.extend_from_slice(b"01"); // pin block format
    v.extend_from_slice(b"123456789012"); // account 12N
    v.extend_from_slice(b"1234567890123456"); // decim table 16H
    v.extend_from_slice(b"NNNNNNNNNNNN"); // pin val data 12A
    v.extend_from_slice(b"123456FFFFFF"); // offset 12H
    v
}

fn build_visa_payload(enc_key: &[u8], pvk: &[u8]) -> Vec<u8> {
    let mut v = enc_key.to_vec();
    v.extend_from_slice(pvk);
    v.extend_from_slice(b"04"); // max pin len
    v.extend_from_slice(b"04"); // min pin len
    v.extend_from_slice(b"1234567890ABCDEF"); // PIN block 16H
    v.extend_from_slice(b"01"); // pin block format
    v.extend_from_slice(b"123456789012"); // account 12N
    v.extend_from_slice(b"1"); // PVKI
    v.extend_from_slice(b"1234"); // PVV 4N
    v
}

#[test]
fn da_parse_single_keys() {
    let payload = build_ibm_payload(&single_key(), &single_key());
    let f = parse_ibm(&payload).unwrap();
    assert_eq!(f.enc_key_id.raw, "1234567890ABCDEF");
    assert_eq!(f.pvk_id.raw, "1234567890ABCDEF");
    assert_eq!(f.pin_block_format, "01"); // mapped to APC IsoFormat0
    assert_eq!(f.account, "123456789012");
    assert_eq!(f.decim_table, "1234567890123456");
    assert_eq!(f.pin_val_data, "NNNNNNNNNNNN");
    assert_eq!(f.offset, "123456FFFFFF");
}

#[test]
fn da_parse_double_enc_key() {
    // parse_legacy_key requires 'U' prefix for double-length keys
    let mut key = vec![b'U'];
    key.extend_from_slice(b"1234567890ABCDEF1234567890ABCDEF");
    let payload = build_ibm_payload(&key, &single_key());
    let f = parse_ibm(&payload).unwrap();
    assert_eq!(f.enc_key_id.raw, "U1234567890ABCDEF1234567890ABCDEF");
    assert_eq!(f.pvk_id.raw, "1234567890ABCDEF");
}

#[test]
fn dc_parse_single_enc_double_pvk() {
    let payload = build_visa_payload(&single_key(), &double_key());
    let f = parse_visa(&payload).unwrap();
    assert_eq!(f.enc_key_id.raw, "1234567890ABCDEF");
    assert_eq!(f.pvk_id.raw, "1234567890ABCDEF1234567890ABCDEF");
    assert_eq!(f.account, "123456789012");
    assert_eq!(f.pvki, 1);
    assert_eq!(f.pvv, "1234");
}

#[test]
fn dc_parse_u_prefix_pvk() {
    let mut pvk = vec![b'U'];
    pvk.extend_from_slice(b"1234567890ABCDEF1234567890ABCDEF");
    let payload = build_visa_payload(&single_key(), &pvk);
    let f = parse_visa(&payload).unwrap();
    assert_eq!(f.pvk_id.raw, "U1234567890ABCDEF1234567890ABCDEF");
}

#[test]
fn ibm_rejects_short_payload() {
    let payload = b"tooshort".to_vec();
    assert!(matches!(
        parse_ibm(&payload),
        Err(ProxyError::MalformedPayload(_))
    ));
}

#[test]
fn visa_rejects_short_payload() {
    let payload = b"tooshort".to_vec();
    assert!(matches!(
        parse_visa(&payload),
        Err(ProxyError::MalformedPayload(_))
    ));
}
