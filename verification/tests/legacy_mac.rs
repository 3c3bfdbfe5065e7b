//! The field layouts of the MA family.

use apc_proxy::error::ProxyError;
use apc_proxy::handlers::thales::common::{bytes_to_hex, parse_legacy_key};
use apc_proxy::handlers::thales::legacy_mac::{data_slice, parse_len_binary};

/// Characters of a MAC on the wire.
const MAC_HEX_LEN: usize = 8;

fn single_key() -> Vec<u8> {
    b"1234567890ABCDEF".to_vec()
}

fn double_key() -> Vec<u8> {
    let mut v = vec![b'U'];
    v.extend_from_slice(b"1234567890ABCDEF1234567890ABCDEF");
    v
}

fn len_binary(data: &[u8]) -> Vec<u8> {
    let mut v = format!("{:03X}", data.len()).into_bytes();
    v.extend_from_slice(data);
    v
}

// ── data_slice ────────────────────────────────────────────────────────

#[test]
fn data_slice_stops_at_tilde() {
    let payload = b"KEYDATAhello~extra~stuff";
    assert_eq!(data_slice(payload, 3), b"DATAhello");
}

#[test]
fn data_slice_returns_all_when_no_tilde() {
    let payload = b"KEYdata";
    assert_eq!(data_slice(payload, 3), b"data");
}

#[test]
fn data_slice_empty_at_tilde() {
    let payload = b"KEY~rest";
    assert_eq!(data_slice(payload, 3), b"");
}

// ── parse_len_binary ─────────────────────────────────────────────────

#[test]
fn parse_len_binary_reads_binary_bytes() {
    let data: &[u8] = &[0xDE, 0xAD, 0xBE, 0xEF];
    let mut payload = len_binary(data);
    payload.extend_from_slice(b"EXTRA");
    let (hex, consumed) = parse_len_binary(&payload, 0, "T").unwrap();
    assert_eq!(hex, "DEADBEEF");
    assert_eq!(consumed, 7); // 3 (len field) + 4 bytes
}

#[test]
fn parse_len_binary_rejects_truncated_data() {
    let payload = b"004DE"; // claims 4 bytes but only 2 follow
    assert!(matches!(
        parse_len_binary(payload, 0, "T"),
        Err(ProxyError::MalformedPayload(_))
    ));
}

#[test]
fn parse_len_binary_rejects_non_hex_length() {
    let payload = b"ZZZdata";
    assert!(matches!(
        parse_len_binary(payload, 0, "T"),
        Err(ProxyError::MalformedPayload(_))
    ));
}

// ── MA / MC / ME ──────────────────────────────────────────────────────

#[test]
fn ma_parse_single_key_extracts_data() {
    let mut payload = single_key();
    payload.extend_from_slice(b"MESSAGEDATA");
    let (_, key_len) = parse_legacy_key(&payload, 0).unwrap();
    assert_eq!(key_len, 16);
    let data = data_slice(&payload, key_len);
    assert_eq!(
        bytes_to_hex(data),
        "4D455353414745444154 41".replace(' ', "")
    );
}

#[test]
fn mc_parse_extracts_mac_and_data() {
    let mut payload = double_key();
    payload.extend_from_slice(b"AABBCCDD"); // MAC
    payload.extend_from_slice(b"MSGBYTES");
    let (_, key_len) = parse_legacy_key(&payload, 0).unwrap();
    assert_eq!(key_len, 33);
    let mac = String::from_utf8_lossy(&payload[key_len..key_len + MAC_HEX_LEN]);
    assert_eq!(mac, "AABBCCDD");
}

#[test]
fn mc_too_short_for_mac() {
    let payload = single_key();
    let (_, key_len) = parse_legacy_key(&payload, 0).unwrap();
    assert!(payload.len() < key_len + MAC_HEX_LEN);
}

#[test]
fn me_parse_two_keys_then_mac_and_data() {
    let mut payload = single_key();
    payload.extend_from_slice(&single_key());
    payload.extend_from_slice(b"11223344");
    payload.extend_from_slice(b"PAYLOAD");
    let (_, src_len) = parse_legacy_key(&payload, 0).unwrap();
    let (_, dst_len) = parse_legacy_key(&payload, src_len).unwrap();
    let mac_start = src_len + dst_len;
    assert_eq!(&payload[mac_start..mac_start + MAC_HEX_LEN], b"11223344");
}

// ── MK / MM / MO ─────────────────────────────────────────────────────

#[test]
fn mk_parse_key_then_len_binary() {
    let mut payload = single_key();
    payload.extend_from_slice(&len_binary(&[0xAA, 0xBB, 0xCC]));
    let (key_id, key_consumed) = parse_legacy_key(&payload, 0).unwrap();
    assert_eq!(key_id.raw, "1234567890ABCDEF");
    let (hex, _) = parse_len_binary(&payload, key_consumed, "MK").unwrap();
    assert_eq!(hex, "AABBCC");
}

#[test]
fn mm_parse_key_mac_then_binary() {
    let mut payload = single_key();
    payload.extend_from_slice(b"AABBCCDD"); // MAC (8H)
    payload.extend_from_slice(&len_binary(b"HELLO"));
    let (_, key_consumed) = parse_legacy_key(&payload, 0).unwrap();
    let mac = &payload[key_consumed..key_consumed + MAC_HEX_LEN];
    assert_eq!(mac, b"AABBCCDD");
    let (data_hex, _) = parse_len_binary(&payload, key_consumed + MAC_HEX_LEN, "MM").unwrap();
    assert_eq!(data_hex, bytes_to_hex(b"HELLO"));
}

#[test]
fn mo_parse_two_keys_mac_then_binary() {
    let mut payload = single_key();
    payload.extend_from_slice(&single_key());
    payload.extend_from_slice(b"CCDDAABB");
    payload.extend_from_slice(&len_binary(&[0x01, 0x02]));
    let (_, src_len) = parse_legacy_key(&payload, 0).unwrap();
    let (_, dst_len) = parse_legacy_key(&payload, src_len).unwrap();
    let mac_start = src_len + dst_len;
    assert_eq!(&payload[mac_start..mac_start + MAC_HEX_LEN], b"CCDDAABB");
    let (hex, _) = parse_len_binary(&payload, mac_start + MAC_HEX_LEN, "MO").unwrap();
    assert_eq!(hex, "0102");
}

// ── MU / MW ───────────────────────────────────────────────────────────

#[test]
fn mu_parse_mode0_key_binary() {
    let mut payload = vec![b'0']; // mode 0
    payload.extend_from_slice(&single_key());
    payload.extend_from_slice(&len_binary(b"DATA"));
    assert_eq!(payload[0], b'0');
    let (_, key_consumed) = parse_legacy_key(&payload, 1).unwrap();
    let (hex, _) = parse_len_binary(&payload, 1 + key_consumed, "MU").unwrap();
    assert_eq!(hex, bytes_to_hex(b"DATA"));
}

#[test]
fn mu_rejects_continuation_mode() {
    let mut payload = vec![b'1']; // mode 1 = continuation
    payload.extend_from_slice(&single_key());
    payload.extend_from_slice(&len_binary(b"DATA"));
    // The handler checks mode before parsing key — simulate that check
    assert_ne!(payload[0], b'0');
}

#[test]
fn mw_parse_mode0_key_mac_binary() {
    let mut payload = vec![b'0'];
    payload.extend_from_slice(&single_key());
    payload.extend_from_slice(b"AABBCCDD"); // MAC
    payload.extend_from_slice(&len_binary(b"MSG"));
    let (_, key_consumed) = parse_legacy_key(&payload, 1).unwrap();
    let pos = 1 + key_consumed;
    let mac = &payload[pos..pos + MAC_HEX_LEN];
    assert_eq!(mac, b"AABBCCDD");
    let (hex, _) = parse_len_binary(&payload, pos + MAC_HEX_LEN, "MW").unwrap();
    assert_eq!(hex, bytes_to_hex(b"MSG"));
}

// ── MQ / MS ───────────────────────────────────────────────────────────

#[test]
fn mq_parse_mode0_key_binary() {
    let mut payload = vec![b'0'];
    payload.extend_from_slice(&single_key());
    payload.extend_from_slice(&len_binary(&[0xDE, 0xAD]));
    assert_eq!(payload[0], b'0');
    let (_, key_consumed) = parse_legacy_key(&payload, 1).unwrap();
    let (hex, _) = parse_len_binary(&payload, 1 + key_consumed, "MQ").unwrap();
    assert_eq!(hex, "DEAD");
}

#[test]
fn ms_parse_mode0_key_binary() {
    let mut payload = vec![b'0'];
    payload.extend_from_slice(&double_key());
    payload.extend_from_slice(&len_binary(b"RETAIL"));
    let (key_id, key_consumed) = parse_legacy_key(&payload, 1).unwrap();
    assert!(key_id.raw.starts_with('U'));
    let (hex, _) = parse_len_binary(&payload, 1 + key_consumed, "MS").unwrap();
    assert_eq!(hex, bytes_to_hex(b"RETAIL"));
}
