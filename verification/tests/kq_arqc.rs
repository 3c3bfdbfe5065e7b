//! The KQ field layout.

use apc_proxy::error::ProxyError;
use apc_proxy::handlers::thales::common::{ArpcParams, EmvSession};
use apc_proxy::handlers::thales::kq_arqc::{parse_kq, KqMode};

/// Build a complete KQ binary payload up through ARQC.
fn kq_prefix(mode: u8, scheme: u8, key: &[u8], pan_seq_bcd: [u8; 8], txn: &[u8]) -> Vec<u8> {
    let mut v = vec![mode, scheme];
    v.extend_from_slice(b"00E"); // key type 3H
    v.extend_from_slice(key);
    v.extend_from_slice(&pan_seq_bcd); // 8B BCD
    v.extend_from_slice(&[0x00, 0x01]); // ATC 2B
    v.extend_from_slice(&[0xDE, 0xAD, 0xBE, 0xEF]); // UN 4B
    let len = txn.len() as u16;
    v.extend_from_slice(&len.to_be_bytes()); // TxnLen 2B BE
    v.extend_from_slice(txn); // TxnData
    v.push(0x3B); // delimiter
    v.extend_from_slice(&[0xAA, 0xBB, 0xCC, 0xDD, 0xEE, 0xFF, 0x00, 0x11]); // ARQC 8B
    v
}

fn single_key() -> Vec<u8> {
    b"1234567890ABCDEF".to_vec() // 16H single-length
}

// EMV pre-formatted (rightmost 16 of PAN||PSN) "1234567890123401" -> PAN 12345678901234, Seq 01
fn pan_bcd() -> [u8; 8] {
    [0x12, 0x34, 0x56, 0x78, 0x90, 0x12, 0x34, 0x01]
}

#[test]
fn kq_parse_verify_only() {
    let payload = kq_prefix(b'0', b'1', &single_key(), pan_bcd(), &[0xDE, 0xAD]);
    let f = parse_kq(&payload).unwrap();
    assert!(matches!(f.mode, KqMode::VerifyOnly));
    assert_eq!(f.session, EmvSession::Mastercard);
    assert_eq!(f.key_id.raw, "1234567890ABCDEF");
    assert_eq!(f.pan, "12345678901234");
    assert_eq!(f.pan_seq, "01");
    assert_eq!(f.atc, "0001");
    assert_eq!(f.un, "DEADBEEF");
    // txn data is EMV (ISO 9797-1 method 2) padded for APC: DEAD + 80 + zeros
    assert_eq!(f.txn_data.as_str(), "DEAD800000000000");
    assert_eq!(f.arqc, "AABBCCDDEEFF0011");
    assert!(f.arpc_params.is_none());
}

#[test]
fn kq_parse_method1_arpc() {
    let mut payload = kq_prefix(b'1', b'1', &single_key(), pan_bcd(), &[0xDE, 0xAD]);
    payload.extend_from_slice(&[0x00, 0x10]); // ARC 2B binary
    let f = parse_kq(&payload).unwrap();
    assert!(matches!(f.mode, KqMode::VerifyArpcMethod1));
    assert!(matches!(
        f.arpc_params,
        Some(ArpcParams::Method1 { ref auth_response_code }) if auth_response_code == "0010"
    ));
}

#[test]
fn kq_parse_method2_arpc_no_pad() {
    let mut payload = kq_prefix(b'2', b'1', &single_key(), pan_bcd(), &[0xDE, 0xAD]);
    payload.extend_from_slice(&[0x00, 0x00, 0x00, 0x00]); // CSU 4B
    payload.push(0x00); // PAD len 0
    let f = parse_kq(&payload).unwrap();
    assert_eq!(f.session, EmvSession::Mastercard);
    assert!(matches!(f.mode, KqMode::VerifyArpcMethod2));
    assert!(matches!(
        f.arpc_params,
        Some(ArpcParams::Method2 { ref card_status_update, ref proprietary_auth_data })
            if card_status_update == "00000000" && proprietary_auth_data.is_empty()
    ));
}

#[test]
fn kq_parse_method2_arpc_with_pad() {
    let mut payload = kq_prefix(b'2', b'1', &single_key(), pan_bcd(), &[0xDE, 0xAD]);
    payload.extend_from_slice(&[0xAB, 0xCD, 0xEF, 0x12]); // CSU 4B
    payload.push(0x02); // PAD len 2
    payload.extend_from_slice(&[0xCA, 0xFE]); // PAD 2B
    let f = parse_kq(&payload).unwrap();
    assert!(matches!(
        f.arpc_params,
        Some(ArpcParams::Method2 { ref proprietary_auth_data, .. })
            if proprietary_auth_data == "CAFE"
    ));
}

#[test]
fn kq_rejects_mode_3() {
    let payload = kq_prefix(b'3', b'0', &single_key(), pan_bcd(), &[]);
    assert!(matches!(
        parse_kq(&payload),
        Err(ProxyError::MalformedPayload(_))
    ));
}

#[test]
fn kq_parse_amex_scheme() {
    let payload = kq_prefix(b'0', b'2', &single_key(), pan_bcd(), &[0xDE, 0xAD]);
    let f = parse_kq(&payload).unwrap();
    assert_eq!(f.session, EmvSession::Amex);
}

#[test]
fn kq_scheme_0_maps_to_visa() {
    // Scheme '0' = Visa (APC SessionKeyVisa: PAN + PAN seq). Parses, not rejected.
    let payload = kq_prefix(b'0', b'0', &single_key(), pan_bcd(), &[0xDE, 0xAD]);
    let f = parse_kq(&payload).unwrap();
    assert_eq!(f.session, EmvSession::Visa);
}

#[test]
fn kq_rejects_invalid_scheme() {
    let payload = kq_prefix(b'0', b'9', &single_key(), pan_bcd(), &[]);
    assert!(matches!(
        parse_kq(&payload),
        Err(ProxyError::MalformedPayload(_))
    ));
}

#[test]
fn kq_parse_double_length_key() {
    let mut key = vec![b'U'];
    key.extend_from_slice(b"1234567890ABCDEF1234567890ABCDEF");
    let payload = kq_prefix(b'0', b'1', &key, pan_bcd(), &[0xAB]);
    let f = parse_kq(&payload).unwrap();
    assert_eq!(f.key_id.raw, "U1234567890ABCDEF1234567890ABCDEF");
}

#[test]
fn kq_rejects_missing_delimiter() {
    // Build a payload but replace the 0x3B with 0x00
    let mut payload = kq_prefix(b'0', b'1', &single_key(), pan_bcd(), &[0xDE]);
    // The 0x3B delimiter is at the end before ARQC — find and corrupt it
    let delim_pos = payload.len() - 9; // 1B delim + 8B ARQC
    payload[delim_pos] = 0x00;
    assert!(matches!(
        parse_kq(&payload),
        Err(ProxyError::MalformedPayload(_))
    ));
}
