//! Key fields, KSN descriptors and BCD account numbers.

use apc_proxy::error::ProxyError;
use apc_proxy::handlers::thales::common::{
    bytes_to_hex, decode_bcd_pan_seq, parse_bdk, parse_key_32, parse_ksn_with_descriptor,
    parse_legacy_key, DukptDerivationType,
};

#[test]
fn bytes_to_hex_values() {
    assert_eq!(bytes_to_hex(&[0xDE, 0xAD, 0xBE, 0xEF]), "DEADBEEF");
    assert_eq!(bytes_to_hex(&[]), "");
}

#[test]
fn decode_bcd_pan_and_seq() {
    // EMV pre-formatted (rightmost 16 of PAN||PSN): "1234567890123401" -> first 14 / last 2.
    let bytes = [0x12, 0x34, 0x56, 0x78, 0x90, 0x12, 0x34, 0x01];
    let (pan, seq) = decode_bcd_pan_seq(bytes);
    assert_eq!(pan, "12345678901234");
    assert_eq!(seq, "01");
}

#[test]
fn decode_bcd_pan_seq_strips_option_a_padding() {
    // 12-digit PAN 123456789012, PSN 01 → EMV Option A pre-format =
    // rightmost-16(PAN‖PSN) left zero-padded: "0012345678901201". The Option A
    // padding is stripped to recover the conventional PAN.
    let bytes = [0x00, 0x12, 0x34, 0x56, 0x78, 0x90, 0x12, 0x01];
    let (pan, seq) = decode_bcd_pan_seq(bytes);
    assert_eq!(pan, "123456789012");
    assert_eq!(seq, "01");
}

#[test]
fn single_length_key() {
    let buf = b"1234567890ABCDEF rest";
    let (desc, consumed) = parse_legacy_key(buf, 0).unwrap();
    assert_eq!(desc.raw, "1234567890ABCDEF");
    assert!(desc.block.is_none());
    assert_eq!(consumed, 16);
}

#[test]
fn double_length_key() {
    let mut buf = Vec::new();
    buf.push(b'U');
    buf.extend_from_slice(b"1234567890ABCDEF1234567890ABCDEF");
    buf.extend_from_slice(b"extra");
    let (desc, consumed) = parse_legacy_key(&buf, 0).unwrap();
    assert_eq!(&desc.raw[..1], "U");
    assert_eq!(consumed, 33);
}

#[test]
fn triple_length_key() {
    let mut buf = Vec::new();
    buf.push(b'T');
    buf.extend_from_slice(b"1234567890ABCDEF1234567890ABCDEF1234567890ABCDEF");
    let (desc, consumed) = parse_legacy_key(&buf, 0).unwrap();
    assert_eq!(&desc.raw[..1], "T");
    assert_eq!(consumed, 49);
}

#[test]
fn ksn_descriptor_tdes_20h() {
    let mut buf = b"014".to_vec();
    buf.extend_from_slice(b"12345678901234567890");
    buf.extend_from_slice(b"extra");
    let (ksn, consumed, deriv) = parse_ksn_with_descriptor(&buf, 0).unwrap();
    assert_eq!(ksn, "12345678901234567890");
    assert_eq!(consumed, 23);
    assert!(matches!(
        deriv,
        DukptDerivationType::Tdes2Key
    ));
}

#[test]
fn ksn_descriptor_aes_24h() {
    let mut buf = b"018".to_vec();
    buf.extend_from_slice(b"123456789012345678901234");
    let (ksn, consumed, deriv) = parse_ksn_with_descriptor(&buf, 0).unwrap();
    assert_eq!(ksn.len(), 24);
    assert_eq!(consumed, 27);
    assert!(matches!(
        deriv,
        DukptDerivationType::Aes128
    ));
}

#[test]
fn ksn_descriptor_with_offset() {
    let mut buf = b"SKIP014".to_vec();
    buf.extend_from_slice(b"12345678901234567890");
    let (ksn, consumed, _) = parse_ksn_with_descriptor(&buf, 4).unwrap();
    assert_eq!(ksn, "12345678901234567890");
    assert_eq!(consumed, 23);
}

#[test]
fn ksn_descriptor_rejects_unsupported_length() {
    let mut buf = b"010".to_vec();
    buf.extend_from_slice(b"1234567890123456");
    assert!(parse_ksn_with_descriptor(&buf, 0).is_err());
}

#[test]
fn truncated_single_returns_error() {
    let buf = b"1234";
    assert!(parse_legacy_key(buf, 0).is_err());
}

#[test]
fn truncated_double_returns_error() {
    let buf = b"U1234";
    assert!(parse_legacy_key(buf, 0).is_err());
}

#[test]
fn empty_returns_error() {
    assert!(parse_legacy_key(b"", 0).is_err());
}

#[test]
fn nonzero_offset() {
    let buf = b"SKIP1234567890ABCDEF";
    let (desc, consumed) = parse_legacy_key(buf, 4).unwrap();
    assert_eq!(desc.raw, "1234567890ABCDEF");
    assert_eq!(consumed, 16);
}

// ── TR-31 wrapped key block ─────────────────────────────────────────────

/// Build an 'S'-prefixed TR-31 ASCII block. Length is set automatically.
fn build_tr31(
    usage: &str,
    algo: char,
    opt_blocks: &[u8],
    encrypted_payload_chars: &str,
) -> Vec<u8> {
    let header_no_length = format!(
        "{ver}LLLL{usage}{algo}{mode}{ver_no}{exp}{opt_count:02}{reserved}",
        ver = "D",
        usage = usage,
        algo = algo,
        mode = "B",
        ver_no = "00",
        exp = "N",
        opt_count = count_opt_blocks(opt_blocks),
        reserved = "00",
    );
    let total = header_no_length.len() + opt_blocks.len() + encrypted_payload_chars.len();
    let mut header = header_no_length.into_bytes();
    let len_str = format!("{total:04}");
    header[1..5].copy_from_slice(len_str.as_bytes());

    let mut out = vec![b'S'];
    out.extend_from_slice(&header);
    out.extend_from_slice(opt_blocks);
    out.extend_from_slice(encrypted_payload_chars.as_bytes());
    out
}

fn count_opt_blocks(opt_area: &[u8]) -> usize {
    let mut count = 0;
    let mut pos = 0;
    while pos + 4 <= opt_area.len() {
        let len_str = std::str::from_utf8(&opt_area[pos + 2..pos + 4]).unwrap();
        let len = usize::from_str_radix(len_str, 16).unwrap();
        if len == 0 || pos + len > opt_area.len() {
            break;
        }
        count += 1;
        pos += len;
    }
    count
}

/// A "KC" optional block with version "00" and a 6-char KCV.
fn kc_block(kcv: &str) -> Vec<u8> {
    // ID(2) + Length(2) + Version(2) + KCV
    let total_len = 2 + 2 + 2 + kcv.len();
    let mut v = format!("KC{total_len:02X}00").into_bytes();
    v.extend_from_slice(kcv.as_bytes());
    v
}

#[test]
fn tr31_block_with_kc_extracts_kcv() {
    let mut buf = build_tr31("P0", 'T', &kc_block("ABCDEF"), "FAKEENCRYPTEDDATA1234567");
    buf.extend_from_slice(b"trailing");

    let (desc, consumed) = parse_legacy_key(&buf, 0).unwrap();
    let block = desc.block.expect("block metadata");
    assert_eq!(block.key_usage, "P0");
    assert_eq!(block.algorithm, 'T');
    assert_eq!(block.kcv.as_deref(), Some("ABCDEF"));
    assert_eq!(consumed, desc.raw.len());
    assert!(consumed < buf.len()); // didn't consume trailing
}

#[test]
fn tr31_block_without_kc_yields_no_kcv() {
    let buf = build_tr31("M6", 'A', &[], "FAKEENCRYPTEDDATA1234567");
    let (desc, _) = parse_legacy_key(&buf, 0).unwrap();
    let block = desc.block.expect("block metadata");
    assert_eq!(block.key_usage, "M6");
    assert_eq!(block.algorithm, 'A');
    assert!(block.kcv.is_none());
}

#[test]
fn tr31_block_normalizes_kcv_to_uppercase() {
    let buf = build_tr31("P0", 'T', &kc_block("abcdef"), "DATA");
    let (desc, _) = parse_legacy_key(&buf, 0).unwrap();
    assert_eq!(desc.block.unwrap().kcv.as_deref(), Some("ABCDEF"));
}

#[test]
fn tr31_block_skips_other_optional_blocks_before_kc() {
    // "KS" optional block (key set ID, 8 chars total = ID(2)+LEN(2)+DATA(4)) before "KC".
    let mut opts = b"KS080012".to_vec(); // ID=KS, len=08, data=0012
    opts.extend_from_slice(&kc_block("123456"));
    let buf = build_tr31("M1", 'T', &opts, "DATA");
    let (desc, _) = parse_legacy_key(&buf, 0).unwrap();
    assert_eq!(desc.block.unwrap().kcv.as_deref(), Some("123456"));
}

#[test]
fn tr31_truncated_returns_error() {
    let mut buf = build_tr31("P0", 'T', &kc_block("ABCDEF"), "DATA");
    buf.truncate(buf.len() - 2);
    assert!(parse_legacy_key(&buf, 0).is_err());
}

#[test]
fn tr31_bad_length_field_returns_error() {
    let mut buf = build_tr31("P0", 'T', &kc_block("ABCDEF"), "DATA");
    buf[1..5].copy_from_slice(b"XXXX");
    assert!(parse_legacy_key(&buf, 0).is_err());
}

#[test]
fn parse_bdk_handles_tr31_prefix() {
    let buf = build_tr31("B0", 'T', &kc_block("08D7B4"), "ENCRYPTEDDATAHERE1234567");
    let (desc, _) = parse_bdk(&buf, 0).unwrap();
    let block = desc.block.expect("block metadata");
    assert_eq!(block.key_usage, "B0");
    assert_eq!(block.kcv.as_deref(), Some("08D7B4"));
}

#[test]
fn parse_key_32_handles_tr31_prefix() {
    let buf = build_tr31("V2", 'T', &kc_block("664CDA"), "ENCRYPTEDDATAHERE1234567");
    let (desc, _) = parse_key_32(&buf, 0).unwrap();
    let block = desc.block.expect("block metadata");
    assert_eq!(block.key_usage, "V2");
}

#[test]
fn key_block_numbers_are_digits() {
    let whole = b"SD0016P0TB00N0000";
    assert_eq!(parse_legacy_key(whole, 0).unwrap().1, 17);
    for (buf, why) in [
        (&b"SD+016P0TB00N0000"[..], "TR-31 length not decimal: '+016'"),
        (&b"SD0016P0TB00N+000"[..], "TR-31 opt block count not decimal: '+0'"),
        (&b"SD0028P0TB00N0100KC+C00ABCDEF"[..], "TR-31 opt block length not hex: '+C'"),
    ] {
        match parse_legacy_key(buf, 0) {
            Err(ProxyError::MalformedPayload(text)) => assert_eq!(text, why),
            _ => panic!("accepted"),
        }
        assert!(matches!(parse_bdk(buf, 0), Err(ProxyError::MalformedPayload(_))));
        assert!(matches!(parse_key_32(buf, 0), Err(ProxyError::MalformedPayload(_))));
    }
    let (block, taken) = parse_legacy_key(b"SD0028P0TB00N0100KC0C00ABCDEF", 0).unwrap();
    assert_eq!(taken, 29);
    assert_eq!(block.block.unwrap().kcv.as_deref(), Some("ABCDEF"));
}

#[test]
fn a_ksn_descriptor_has_no_sign() {
    assert!(parse_ksn_with_descriptor(b"0+412345678901234567890", 0).is_err());
}
