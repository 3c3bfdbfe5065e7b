//! The JU and KU field layouts.

use apc_proxy::apc::{SessionKeyDerivationMode, SmiValue};
use apc_proxy::error::ProxyError;
use apc_proxy::handlers::thales::issuer_script_mac::{parse_ju, parse_ku, IssuerScriptMacHandler};
use apc_proxy::handlers::Handler;

// EMV pre-formatted (rightmost 16 of PAN||PSN) "1234567890123401" → PAN 12345678901234, Seq 01.
const PAN_SEQ_BCD: [u8; 8] = [0x12, 0x34, 0x56, 0x78, 0x90, 0x12, 0x34, 0x01];

fn key32() -> Vec<u8> {
    b"1234567890ABCDEF1234567890ABCDEF".to_vec()
}

#[test]
fn issuer_script_mac_command_codes_registered() {
    let h = IssuerScriptMacHandler;
    for c in ["JU", "KU", "KY"] {
        assert!(h.command_codes().contains(&c));
    }
}

// ── JU ──────────────────────────────────────────────────────────────────

fn ju_payload(mode: u8, scheme: u8, pad_flag: u8, msg: &[u8]) -> Vec<u8> {
    let mut v = vec![mode, scheme];
    v.extend_from_slice(&key32());
    v.extend_from_slice(&PAN_SEQ_BCD);
    v.extend_from_slice(&[0x00, 0x2A]); // ATC 2B → "002A"
    v.push(pad_flag);
    v.extend_from_slice(format!("{:04X}", msg.len()).as_bytes()); // MacMsgLen 4H
    v.extend_from_slice(msg);
    v.push(0x3B); // ';'
    v
}

#[test]
fn ju_mode0_parses_and_maps_emv2000_atc() {
    let f = parse_ju(&ju_payload(b'0', b'1', b'0', &[0xDE, 0xAD, 0xBE, 0xEF])).unwrap();
    assert_eq!(f.pan, "12345678901234");
    assert_eq!(f.pan_seq, "01");
    assert!(matches!(
        f.mapping.session_mode,
        SessionKeyDerivationMode::Emv2000
    ));
    assert!(matches!(f.mapping.value, SmiValue::Atc(ref a) if a == "002A"));
    // padding flag '0' → proxy method-2 pads.
    assert_eq!(f.message.as_str(), "DEADBEEF80000000");
}

#[test]
fn ju_already_padded_message_not_repadded() {
    // 8-byte, already method-2 padded input; mode '0', pad flag '1' → forward as-is.
    let f = parse_ju(&ju_payload(
        b'0',
        b'1',
        b'1',
        &[0xDE, 0xAD, 0xBE, 0xEF, 0x80, 0, 0, 0],
    ))
    .unwrap();
    assert_eq!(f.message.as_str(), "DEADBEEF80000000");
}

#[test]
fn ju_rejects_confidentiality_modes() {
    for m in *b"1234" {
        assert!(matches!(
            parse_ju(&ju_payload(m, b'1', b'0', &[0xAA])),
            Err(ProxyError::Unsupported(_))
        ));
    }
}

#[test]
fn ju_rejects_unknown_scheme() {
    assert!(matches!(
        parse_ju(&ju_payload(b'0', b'2', b'0', &[0xAA])),
        Err(ProxyError::MalformedPayload(_))
    ));
}

// ── KU ──────────────────────────────────────────────────────────────────

/// KU with an 8-byte session-key-data field. `length_prefixed` mirrors the
/// scheme's framing (only scheme '5' carries a 4H length).
fn ku_payload(scheme: u8, skd: [u8; 8], msg: &[u8], length_prefixed: bool) -> Vec<u8> {
    let mut v = vec![b'0', scheme];
    v.extend_from_slice(&key32());
    v.extend_from_slice(&PAN_SEQ_BCD);
    v.extend_from_slice(&skd);
    if length_prefixed {
        v.extend_from_slice(format!("{:04X}", msg.len()).as_bytes());
    }
    v.extend_from_slice(msg);
    v.push(0x3B);
    v
}

#[test]
fn ku_visa_scheme0_atc_from_rightmost_2_bytes() {
    let skd = [0, 0, 0, 0, 0, 0, 0x12, 0x34]; // ATC left-zero-padded to 8B
    let f = parse_ku(&ku_payload(b'0', skd, &[0xAB, 0xCD], false)).unwrap();
    assert!(matches!(
        f.mapping.session_mode,
        SessionKeyDerivationMode::Visa
    ));
    assert!(matches!(f.mapping.value, SmiValue::Atc(ref a) if a == "1234"));
    assert_eq!(f.message.as_str(), "ABCD800000000000");
}

#[test]
fn ku_mastercard_scheme1_randi_as_ac() {
    let randi = [0x11, 0x22, 0x33, 0x44, 0x55, 0x66, 0x77, 0x88];
    let f = parse_ku(&ku_payload(b'1', randi, &[0xAB], false)).unwrap();
    assert!(matches!(
        f.mapping.session_mode,
        SessionKeyDerivationMode::MastercardSessionKey
    ));
    assert!(matches!(f.mapping.value, SmiValue::Ac(ref a) if a == "1122334455667788"));
}

#[test]
fn ku_amex_scheme2_atc() {
    let skd = [0, 0, 0, 0, 0, 0, 0x00, 0x07];
    let f = parse_ku(&ku_payload(b'2', skd, &[0xAB], false)).unwrap();
    assert!(matches!(
        f.mapping.session_mode,
        SessionKeyDerivationMode::Amex
    ));
    assert!(matches!(f.mapping.value, SmiValue::Atc(ref a) if a == "0007"));
}

#[test]
fn ku_jcb_cvn04_scheme5_emvcommon_ac_length_prefixed() {
    let ac = [0xAA, 0xBB, 0xCC, 0xDD, 0xEE, 0xFF, 0x00, 0x11];
    let f = parse_ku(&ku_payload(b'5', ac, &[0xDE, 0xAD], true)).unwrap();
    assert!(matches!(
        f.mapping.session_mode,
        SessionKeyDerivationMode::EmvCommonSessionKey
    ));
    assert!(matches!(f.mapping.value, SmiValue::Ac(ref a) if a == "AABBCCDDEEFF0011"));
    assert_eq!(f.message.as_str(), "DEAD800000000000");
}

#[test]
fn ku_gates_jcb_and_unionpay_schemes() {
    let skd = [0u8; 8];
    for s in *b"346" {
        assert!(matches!(
            parse_ku(&ku_payload(s, skd, &[0xAB], false)),
            Err(ProxyError::Unsupported(_))
        ));
    }
}

#[test]
fn ku_rejects_confidentiality_mode() {
    // Force mode '2' by editing the first byte.
    let mut p = ku_payload(b'0', [0u8; 8], &[0xAB], false);
    p[0] = b'2';
    assert!(matches!(parse_ku(&p), Err(ProxyError::Unsupported(_))));
}

#[test]
fn ku_delimited_message_stops_at_semicolon() {
    let skd = [0, 0, 0, 0, 0, 0, 0x00, 0x01];
    let f = parse_ku(&ku_payload(b'0', skd, &[0x01, 0x02, 0x03], false)).unwrap();
    // 3-byte message method-2 padded to 8 bytes.
    assert_eq!(f.message.as_str(), "0102038000000000");
}

#[test]
fn issuer_script_mac_unsupported_maps_to_68() {
    assert_eq!(
        ProxyError::Unsupported("KY".to_string()).payshield_code(),
        *b"68"
    );
}
