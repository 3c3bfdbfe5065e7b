//! The GO field layout.

use apc_proxy::error::ProxyError;
use apc_proxy::handlers::thales::common::{DukptDerivationType, PinBlockFormat};
use apc_proxy::handlers::thales::dukpt_pin_verify_aes::parse_go;

fn bdk_32() -> Vec<u8> {
    b"12345678901234561234567890123456".to_vec()
}
fn pvk_16() -> Vec<u8> {
    b"1234567890ABCDEF".to_vec()
}

// 3DES KSN descriptor: nibbles = 0x14 = 20 → 20H KSN
fn ksn_tdes() -> Vec<u8> {
    let mut v = b"014".to_vec();
    v.extend_from_slice(b"12345678901234567890");
    v
}

// AES KSN descriptor: nibbles = 0x18 = 24 → 24H KSN
fn ksn_aes() -> Vec<u8> {
    let mut v = b"018".to_vec();
    v.extend_from_slice(b"123456789012345678901234");
    v
}

fn pin16() -> &'static [u8] {
    b"1234567890ABCDEF"
}
fn pin32() -> &'static [u8] {
    b"1234567890ABCDEF1234567890ABCDEF"
}

// Mode '0' + BDK + PVK + KSN + PIN block + format code + check length + account + ...
fn build_go(bdk: &[u8], pvk: &[u8], ksn_block: &[u8], pin_block: &[u8], fmt: &[u8]) -> Vec<u8> {
    let mut v = b"0".to_vec(); // Mode
    v.extend_from_slice(bdk);
    v.extend_from_slice(pvk);
    v.extend_from_slice(ksn_block);
    v.extend_from_slice(pin_block);
    v.extend_from_slice(fmt); // PIN block format code
    v.extend_from_slice(b"04"); // check length
    v.extend_from_slice(b"123456789012"); // account
    v.extend_from_slice(b"1234567890123456"); // decim table
    v.extend_from_slice(b"NNNNNNNNNNNN"); // pin val data
    v.extend_from_slice(b"123456FFFFFF"); // offset
    v
}

#[test]
fn go_parse_tdes_ksn() {
    let p = build_go(&bdk_32(), &pvk_16(), &ksn_tdes(), pin16(), b"01");
    let f = parse_go(&p).unwrap();
    assert_eq!(f.ksn, "12345678901234567890");
    assert!(matches!(f.deriv_type, DukptDerivationType::Tdes2Key));
    assert!(matches!(
        f.pin_block_format,
        PinBlockFormat::IsoFormat0
    ));
    assert_eq!(f.pin_block.as_str(), "1234567890ABCDEF");
    assert_eq!(f.account, "123456789012");
    assert_eq!(f.offset, "123456FFFFFF");
}

#[test]
fn go_parse_aes_uses_32h_pin_block() {
    let p = build_go(&bdk_32(), &pvk_16(), &ksn_aes(), pin32(), b"47");
    let f = parse_go(&p).unwrap();
    assert_eq!(f.ksn.len(), 24);
    assert!(matches!(f.deriv_type, DukptDerivationType::Aes128));
    assert_eq!(f.pin_block.as_str().len(), 32);
    assert!(matches!(
        f.pin_block_format,
        PinBlockFormat::IsoFormat3
    ));
    assert_eq!(f.account, "123456789012");
}

#[test]
fn go_rejects_mode_1() {
    let mut p = build_go(&bdk_32(), &pvk_16(), &ksn_tdes(), pin16(), b"01");
    p[0] = b'1'; // Mode '1' = PIN+MAC verify
    assert!(matches!(parse_go(&p), Err(ProxyError::Unsupported(_))));
}

#[test]
fn go_rejects_plus_format() {
    let p = build_go(&bdk_32(), &pvk_16(), &ksn_tdes(), pin16(), b"04");
    assert!(matches!(parse_go(&p), Err(ProxyError::Unsupported(_))));
}

#[test]
fn go_rejects_k_prefix_decim() {
    let mut p = b"0".to_vec(); // Mode
    p.extend_from_slice(&bdk_32());
    p.extend_from_slice(&pvk_16());
    p.extend_from_slice(&ksn_tdes());
    p.extend_from_slice(pin16()); // PIN block
    p.extend_from_slice(b"01"); // format code
    p.extend_from_slice(b"04"); // check length
    p.extend_from_slice(b"123456789012"); // account
    p.push(b'K');
    assert!(matches!(parse_go(&p), Err(ProxyError::MalformedPayload(_))));
}
