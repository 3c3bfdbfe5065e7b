//! The GW field layout.

use apc_proxy::error::ProxyError;
use apc_proxy::handlers::thales::common::DukptDerivationType;
use apc_proxy::handlers::thales::dukpt_mac::parse_gw;

fn single_bdk() -> Vec<u8> {
    b"1234567890ABCDEF1234567890ABCDEF".to_vec() // 32H baseline, no prefix
}

fn double_bdk() -> Vec<u8> {
    let mut v = vec![b'U'];
    v.extend_from_slice(b"1234567890ABCDEF1234567890ABCDEF");
    v
}

fn ksn_tdes() -> Vec<u8> {
    let mut v = b"014".to_vec(); // key type '0', 0x14=20 nibbles → 3DES
    v.extend_from_slice(b"12345678901234567890"); // 20H KSN
    v
}

fn build_gw(
    mode: u8,
    mac_size: u8,
    algo: u8,
    bdk: &[u8],
    ksn_block: &[u8],
    msg_hex: &[u8],
    mac: Option<&[u8]>,
) -> Vec<u8> {
    let mut v = vec![mode, b'1', mac_size, algo, b'1'];
    v.extend_from_slice(bdk);
    v.extend_from_slice(ksn_block);
    let byte_count = msg_hex.len() / 2;
    v.extend_from_slice(format!("{:04X}", byte_count).as_bytes());
    v.extend_from_slice(msg_hex);
    if let Some(m) = mac {
        v.extend_from_slice(m);
    }
    v
}

#[test]
fn gw_parse_generate_alg1() {
    let p = build_gw(
        b'0',
        b'0',
        b'1',
        &single_bdk(),
        &ksn_tdes(),
        b"DEADBEEF",
        None,
    );
    let f = parse_gw(&p).unwrap();
    assert!(!f.is_verify);
    assert_eq!(f.mac_size_bytes, 4);
    assert_eq!(f.algo, "ISO9797_ALG1");
    assert_eq!(f.bdk_id.raw, "1234567890ABCDEF1234567890ABCDEF");
    assert_eq!(f.ksn, "12345678901234567890");
    assert_eq!(f.message_hex, "DEADBEEF");
    assert!(f.mac_to_verify.is_none());
}

#[test]
fn gw_parse_verify_alg3_half_mac() {
    let p = build_gw(
        b'1',
        b'1',
        b'3',
        &single_bdk(),
        &ksn_tdes(),
        b"AABBCCDD",
        Some(b"AABB"),
    );
    let f = parse_gw(&p).unwrap();
    assert!(f.is_verify);
    assert_eq!(f.mac_size_bytes, 2);
    assert_eq!(f.algo, "ISO9797_ALG3");
    assert_eq!(f.mac_to_verify, Some("AABB".to_string()));
}

#[test]
fn gw_parse_generate_cmac() {
    let p = build_gw(b'0', b'0', b'6', &single_bdk(), &ksn_tdes(), b"AABB", None);
    let f = parse_gw(&p).unwrap();
    assert_eq!(f.algo, "CMAC");
}

#[test]
fn gw_parse_u_prefix_bdk() {
    let p = build_gw(
        b'0',
        b'0',
        b'1',
        &double_bdk(),
        &ksn_tdes(),
        b"AABBCCDD",
        None,
    );
    let f = parse_gw(&p).unwrap();
    assert_eq!(f.bdk_id.raw, "U1234567890ABCDEF1234567890ABCDEF");
}

#[test]
fn gw_parse_aes_ksn() {
    let mut ksn_aes = b"018".to_vec(); // 0x18=24 nibbles → AES-128
    ksn_aes.extend_from_slice(b"123456789012345678901234"); // 24H
    let p = build_gw(b'0', b'0', b'6', &single_bdk(), &ksn_aes, b"AABBCCDD", None);
    let f = parse_gw(&p).unwrap();
    assert!(matches!(
        f.deriv_type,
        DukptDerivationType::Aes128
    ));
}

#[test]
fn gw_parse_verify_full_mac() {
    let p = build_gw(
        b'1',
        b'0',
        b'1',
        &single_bdk(),
        &ksn_tdes(),
        b"AABBCCDD",
        Some(b"CCDDAABB"),
    );
    let f = parse_gw(&p).unwrap();
    assert!(f.is_verify);
    assert_eq!(f.mac_size_bytes, 4);
    assert_eq!(f.mac_to_verify, Some("CCDDAABB".to_string()));
}

#[test]
fn gw_rejects_bad_mode() {
    let p = build_gw(b'2', b'0', b'1', &single_bdk(), &ksn_tdes(), b"AABB", None);
    assert!(matches!(parse_gw(&p), Err(ProxyError::MalformedPayload(_))));
}

#[test]
fn gw_rejects_bad_algo() {
    let p = build_gw(b'0', b'0', b'2', &single_bdk(), &ksn_tdes(), b"AABB", None);
    assert!(matches!(
        parse_gw(&p),
        Err(ProxyError::UnsupportedMacMode(_))
    ));
}

#[test]
fn gw_rejects_missing_mac_for_verify() {
    // mode='1' but no MAC appended
    let p = build_gw(
        b'1',
        b'0',
        b'1',
        &single_bdk(),
        &ksn_tdes(),
        b"DEADBEEF",
        None,
    );
    assert!(matches!(parse_gw(&p), Err(ProxyError::MalformedPayload(_))));
}

#[test]
fn gw_rejects_bad_input_format() {
    // Input format '0' not supported
    let mut v = vec![b'0', b'0', b'0', b'1', b'1']; // note InFmt='0'
    v.extend_from_slice(&single_bdk());
    v.extend_from_slice(&ksn_tdes());
    v.extend_from_slice(b"0002");
    v.extend_from_slice(b"AABB");
    assert!(matches!(parse_gw(&v), Err(ProxyError::MalformedPayload(_))));
}

#[test]
fn gw_rejects_payload_too_short() {
    let p = vec![b'0', b'1', b'0']; // only 3 bytes
    assert!(matches!(parse_gw(&p), Err(ProxyError::MalformedPayload(_))));
}
