//! The KW field layout.

use apc_proxy::error::ProxyError;
use apc_proxy::handlers::thales::common::{ArpcParams, EmvSession};
use apc_proxy::handlers::thales::kw_arqc::{parse_kw, KwMode};

fn single_key() -> Vec<u8> {
    b"1234567890ABCDEF".to_vec() // 16H single-length
}

// EMV pre-formatted (rightmost 16 of PAN||PSN) "1234567890123401" -> PAN 12345678901234, Seq 01
fn pan_bcd() -> [u8; 8] {
    [0x12, 0x34, 0x56, 0x78, 0x90, 0x12, 0x34, 0x01]
}

fn kw_prefix(mode: u8, scheme: u8, deriv: u8, key: &[u8], txn: &[u8]) -> Vec<u8> {
    let mut v = vec![mode, scheme, deriv];
    v.extend_from_slice(b"00E");
    v.extend_from_slice(key);
    v.extend_from_slice(&pan_bcd());
    v.extend_from_slice(&[0x00, 0x01]); // ATC
    v.extend_from_slice(&[0xDE, 0xAD, 0xBE, 0xEF]); // UN
    let len = txn.len() as u16;
    v.extend_from_slice(&len.to_be_bytes());
    v.extend_from_slice(txn);
    v.push(0x3B);
    v.extend_from_slice(&[0xAA, 0xBB, 0xCC, 0xDD, 0xEE, 0xFF, 0x00, 0x11]);
    v
}

#[test]
fn kw_parse_verify_only() {
    let payload = kw_prefix(b'0', b'0', b'A', &single_key(), &[0xDE, 0xAD]);
    let f = parse_kw(&payload).unwrap();
    assert!(matches!(f.mode, KwMode::VerifyOnly));
    assert!(f.deriv_mode_a); // scheme '0' = Option A
    assert_eq!(f.session, EmvSession::Emv2000); // scheme '0' = EMV2000
    assert_eq!(f.pan, "12345678901234");
    assert_eq!(f.pan_seq, "01");
    assert_eq!(f.atc, "0001");
    assert_eq!(f.un, "DEADBEEF");
    assert_eq!(f.arqc, "AABBCCDDEEFF0011");
    assert!(f.arpc_params.is_none());
}

#[test]
fn kw_parse_method1_arpc() {
    let mut payload = kw_prefix(b'1', b'0', b'A', &single_key(), &[0xDE]);
    payload.extend_from_slice(&[0x00, 0x10]);
    let f = parse_kw(&payload).unwrap();
    assert!(matches!(f.mode, KwMode::VerifyArpcMethod1));
    assert!(matches!(
        f.arpc_params,
        Some(ArpcParams::Method1 { ref auth_response_code }) if auth_response_code == "0010"
    ));
}

#[test]
fn kw_parse_option_b_emv2000_scheme() {
    // Scheme '1' = Option B + EMV2000.
    let payload = kw_prefix(b'0', b'1', b'B', &single_key(), &[]);
    let f = parse_kw(&payload).unwrap();
    assert!(!f.deriv_mode_a);
    assert_eq!(f.session, EmvSession::Emv2000);
}

#[test]
fn kw_parse_emv_common_schemes() {
    // Scheme '2' = Option A + EMV Common; scheme '3' = Option B + EMV Common.
    let f2 = parse_kw(&kw_prefix(b'0', b'2', b'A', &single_key(), &[])).unwrap();
    assert!(f2.deriv_mode_a);
    assert_eq!(f2.session, EmvSession::EmvCommon);
    let f3 = parse_kw(&kw_prefix(b'0', b'3', b'B', &single_key(), &[])).unwrap();
    assert!(!f3.deriv_mode_a);
    assert_eq!(f3.session, EmvSession::EmvCommon);
}

#[test]
fn kw_rejects_unsupported_scheme() {
    // Option C / JCB / UnionPay / cloud-LUK have no APC equivalent.
    let payload = kw_prefix(b'0', b'9', b'A', &single_key(), &[]);
    assert!(matches!(
        parse_kw(&payload),
        Err(ProxyError::Unsupported(_))
    ));
}

#[test]
fn kw_rejects_mode_3() {
    let payload = kw_prefix(b'3', b'0', b'A', &single_key(), &[]);
    assert!(matches!(
        parse_kw(&payload),
        Err(ProxyError::MalformedPayload(_))
    ));
}

#[test]
fn kw_rejects_invalid_deriv_method() {
    let payload = kw_prefix(b'0', b'0', b'C', &single_key(), &[]);
    assert!(matches!(
        parse_kw(&payload),
        Err(ProxyError::MalformedPayload(_))
    ));
}
