//! CW and CY card verification values.

use apc_proxy::error::ProxyError;
use apc_proxy::handlers::thales::cvv::{handle_ny, handle_ry, parse_cw, parse_cy};

// Double-length CVK, no prefix: 32 hex chars.
fn cvk32() -> Vec<u8> {
    b"0123456789ABCDEF0123456789ABCDEF".to_vec()
}

fn build_cw(cvk: &[u8], pan: &[u8]) -> Vec<u8> {
    let mut v = cvk.to_vec();
    v.extend_from_slice(pan);
    v.push(b';');
    v.extend_from_slice(b"2512"); // expiry
    v.extend_from_slice(b"201"); // service code
    v
}

fn build_cy(cvk: &[u8], cvv: &[u8], pan: &[u8]) -> Vec<u8> {
    let mut v = cvk.to_vec();
    v.extend_from_slice(cvv);
    v.extend_from_slice(pan);
    v.push(b';');
    v.extend_from_slice(b"2512");
    v.extend_from_slice(b"000");
    v
}

#[test]
fn cw_parses_16_digit_pan() {
    let f = parse_cw(&build_cw(&cvk32(), b"4111111111111111")).unwrap();
    assert_eq!(f.cvk.raw, "0123456789ABCDEF0123456789ABCDEF");
    assert_eq!(f.pan, "4111111111111111");
    assert_eq!(f.expiry, "2512");
    assert_eq!(f.service_code, "201");
}

#[test]
fn cw_parses_15_digit_amex_pan() {
    // 15-digit PAN would be silently corrupted by a fixed 16-char field.
    let f = parse_cw(&build_cw(&cvk32(), b"371449635398431")).unwrap();
    assert_eq!(f.pan, "371449635398431");
    assert_eq!(f.expiry, "2512");
    assert_eq!(f.service_code, "201");
}

#[test]
fn cw_parses_19_digit_pan() {
    let f = parse_cw(&build_cw(&cvk32(), b"4111111111111111234")).unwrap();
    assert_eq!(f.pan, "4111111111111111234");
}

#[test]
fn cw_parses_u_prefixed_key() {
    let mut cvk = vec![b'U'];
    cvk.extend_from_slice(&cvk32());
    let f = parse_cw(&build_cw(&cvk, b"4111111111111111")).unwrap();
    assert_eq!(f.cvk.raw, "U0123456789ABCDEF0123456789ABCDEF");
    assert_eq!(f.pan, "4111111111111111");
}

#[test]
fn cw_rejects_missing_delimiter() {
    let mut v = cvk32();
    v.extend_from_slice(b"4111111111111111"); // no ';'
    assert!(matches!(parse_cw(&v), Err(ProxyError::MalformedPayload(_))));
}

#[test]
fn cw_rejects_overlong_pan() {
    let mut v = cvk32();
    v.extend_from_slice(b"12345678901234567890"); // 20 digits
    v.push(b';');
    v.extend_from_slice(b"2512201");
    assert!(matches!(parse_cw(&v), Err(ProxyError::MalformedPayload(_))));
}

#[test]
fn cy_parses_cvv_then_variable_pan() {
    let f = parse_cy(&build_cy(&cvk32(), b"123", b"4111111111111111")).unwrap();
    assert_eq!(f.cvv, "123");
    assert_eq!(f.pan, "4111111111111111");
    assert_eq!(f.expiry, "2512");
    assert_eq!(f.service_code, "000");
}

#[test]
fn cy_parses_15_digit_pan() {
    let f = parse_cy(&build_cy(&cvk32(), b"999", b"371449635398431")).unwrap();
    assert_eq!(f.cvv, "999");
    assert_eq!(f.pan, "371449635398431");
}

#[test]
fn ny_unsupported() {
    assert_eq!(handle_ny().error_code, *b"68");
}

#[test]
fn ry_unsupported() {
    assert_eq!(handle_ry().error_code, *b"68");
}
