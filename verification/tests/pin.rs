//! The CA and CC field layouts.

use apc_proxy::error::ProxyError;
use apc_proxy::handlers::thales::pin::{parse_translate, IsoFmt};

fn key16() -> Vec<u8> {
    b"1234567890ABCDEF".to_vec()
}

// CC: source ZPK + dest ZPK + max pin len + pin block + src fmt + dst fmt + PAN
fn build_cc(src: &[u8], dst: &[u8], src_fmt: &[u8], dst_fmt: &[u8]) -> Vec<u8> {
    let mut v = src.to_vec();
    v.extend_from_slice(dst);
    v.extend_from_slice(b"12"); // max PIN length
    v.extend_from_slice(b"1234567890ABCDEF"); // 16H PIN block
    v.extend_from_slice(src_fmt);
    v.extend_from_slice(dst_fmt);
    v.extend_from_slice(b"432109876543"); // 12N PAN
    v
}

#[test]
fn cc_parses_iso0_to_iso0() {
    let p = build_cc(&key16(), &key16(), b"01", b"01");
    let f = parse_translate(&p, false).unwrap();
    assert_eq!(f.source_key.raw, "1234567890ABCDEF");
    assert_eq!(f.dest_key.raw, "1234567890ABCDEF");
    assert!(matches!(f.source_format, IsoFmt::F0));
    assert!(matches!(f.dest_format, IsoFmt::F0));
    assert_eq!(f.pin_block.as_str(), "1234567890ABCDEF");
    assert_eq!(f.account_number, "432109876543");
}

#[test]
fn cc_parses_format_codes_05_and_47() {
    let p = build_cc(&key16(), &key16(), b"05", b"47");
    let f = parse_translate(&p, false).unwrap();
    assert!(matches!(f.source_format, IsoFmt::F1));
    assert!(matches!(f.dest_format, IsoFmt::F3));
}

#[test]
fn cc_parses_u_prefixed_keys() {
    let mut src = vec![b'U'];
    src.extend_from_slice(b"1234567890ABCDEF1234567890ABCDEF");
    let p = build_cc(&src, &key16(), b"01", b"01");
    let f = parse_translate(&p, false).unwrap();
    assert_eq!(f.source_key.raw, "U1234567890ABCDEF1234567890ABCDEF");
    assert_eq!(f.dest_key.raw, "1234567890ABCDEF");
}

#[test]
fn rejects_plus_format() {
    let p = build_cc(&key16(), &key16(), b"04", b"01");
    assert!(matches!(
        parse_translate(&p, false),
        Err(ProxyError::Unsupported(_))
    ));
}

#[test]
fn rejects_iso4_format_pending_validation() {
    let p = build_cc(&key16(), &key16(), b"48", b"01");
    assert!(matches!(
        parse_translate(&p, false),
        Err(ProxyError::Unsupported(_))
    ));
}

#[test]
fn rejects_unknown_format() {
    let p = build_cc(&key16(), &key16(), b"99", b"01");
    assert!(matches!(
        parse_translate(&p, false),
        Err(ProxyError::UnsupportedPinFormat(_))
    ));
}

#[test]
fn ca_rejects_dukpt_dest_flag() {
    let mut v = key16(); // source TPK
    v.push(b'*'); // BDK-1 destination flag
    v.extend_from_slice(&key16());
    v.extend_from_slice(b"121234567890ABCDEF0101432109876543");
    assert!(matches!(
        parse_translate(&v, true),
        Err(ProxyError::Unsupported(_))
    ));
}

#[test]
fn ca_parses_zpk_dest_no_flag() {
    // CA with a ZPK destination (no flag) parses like CC.
    let p = build_cc(&key16(), &key16(), b"01", b"47");
    let f = parse_translate(&p, true).unwrap();
    assert!(matches!(f.source_format, IsoFmt::F0));
    assert!(matches!(f.dest_format, IsoFmt::F3));
}
