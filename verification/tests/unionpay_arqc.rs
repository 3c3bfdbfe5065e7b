//! The JS field layout.

use apc_proxy::error::ProxyError;
use apc_proxy::handlers::thales::unionpay_arqc::parse_js;

// EMV pre-formatted (rightmost 16 of PAN||PSN) "1234567890123401" -> PAN 12345678901234, Seq 01
const PAN_SEQ_BCD: [u8; 8] = [0x12, 0x34, 0x56, 0x78, 0x90, 0x12, 0x34, 0x01];

fn double_key() -> Vec<u8> {
    b"1234567890ABCDEF1234567890ABCDEF".to_vec() // 32H baseline
}

/// Build a JS payload. TxnData is 4 raw binary bytes.
fn build_payload(mode: u8, key: &[u8], include_arc: bool) -> Vec<u8> {
    let txn: &[u8] = &[0xDE, 0xAD, 0xBE, 0xEF];
    let mut v = Vec::new();
    v.push(mode); // Mode Flag
    v.push(b'1'); // Scheme ID (CUP = '1')
    v.extend_from_slice(key); // Key
    v.extend_from_slice(&PAN_SEQ_BCD); // PAN+Seq 8B BCD
    v.extend_from_slice(&[0x00, 0x01]); // ATC 2B binary
    v.push(b'0'); // Padding Flag
    v.extend_from_slice(b"04"); // TxnLen 2H = 4 bytes
    v.extend_from_slice(txn); // TxnData 4B binary
    v.push(0x3B); // delimiter
    v.extend_from_slice(&[0xAA, 0xBB, 0xCC, 0xDD, 0xEE, 0xFF, 0x00, 0x11]); // ARQC 8B
    if include_arc {
        v.extend_from_slice(&[0x00, 0x10]); // ARC 2B binary
    }
    v
}

#[test]
fn js_parse_verify_only() {
    let payload = build_payload(b'0', &double_key(), false);
    let f = parse_js(&payload).unwrap();
    assert_eq!(f.key_id.raw, "1234567890ABCDEF1234567890ABCDEF");
    assert_eq!(f.pan, "12345678901234");
    assert_eq!(f.pan_seq, "01");
    assert_eq!(f.atc, "0001");
    assert_eq!(f.txn_data.as_str(), "DEADBEEF80000000"); // EMV method-2 padded for APC
    assert_eq!(f.arqc, "AABBCCDDEEFF0011");
    assert!(f.arc.is_none());
}

#[test]
fn js_parse_with_arpc() {
    let payload = build_payload(b'1', &double_key(), true);
    let f = parse_js(&payload).unwrap();
    assert_eq!(f.arc, Some("0010".to_string()));
}

#[test]
fn js_parse_u_prefix_key() {
    let mut key = vec![b'U'];
    key.extend_from_slice(b"1234567890ABCDEF1234567890ABCDEF");
    let payload = build_payload(b'0', &key, false);
    let f = parse_js(&payload).unwrap();
    assert_eq!(f.key_id.raw, "U1234567890ABCDEF1234567890ABCDEF");
}

#[test]
fn js_rejects_mode_2() {
    let payload = build_payload(b'2', &double_key(), false);
    assert!(matches!(
        parse_js(&payload),
        Err(ProxyError::MalformedPayload(_))
    ));
}

#[test]
fn js_rejects_missing_arc_for_mode1() {
    let payload = build_payload(b'1', &double_key(), false); // no ARC appended
    assert!(matches!(
        parse_js(&payload),
        Err(ProxyError::MalformedPayload(_))
    ));
}

#[test]
fn js_rejects_bad_delimiter() {
    let mut payload = build_payload(b'0', &double_key(), false);
    let del_pos = payload.iter().rposition(|&b| b == 0x3B).unwrap();
    payload[del_pos] = 0x00;
    assert!(matches!(
        parse_js(&payload),
        Err(ProxyError::MalformedPayload(_))
    ));
}
