//! Laws of key resolution, padding and text, on concrete values.

use apc_proxy::error::ProxyError;
use apc_proxy::handlers::thales::common::{
    build_session_key, emv_pad, map_pin_block_format, parse_legacy_key, EmvSession, PinBlockFormat,
    SessionKey,
};
use apc_proxy::handlers::thales::reader::FieldReader;
use apc_proxy::handlers::HandlerResult;
use apc_proxy::key_map::{collisions, ApcKey, KeyBlockMeta, KeyDescriptor, KeyMap};
use apc_proxy::secret::{Secret, SecretBytes};

fn key(arn: &str, kcv: &str, enabled: bool) -> ApcKey {
    ApcKey {
        arn: arn.to_string(),
        attributes: Some((
            "TR31_P0_PIN_ENCRYPTION_KEY".to_string(),
            "TDES_2KEY".to_string(),
        )),
        kcv: kcv.to_string(),
        enabled,
    }
}

fn block(kcv: &str) -> KeyDescriptor {
    KeyDescriptor {
        raw: "S-block".to_string(),
        block: Some(KeyBlockMeta {
            key_usage: "P0".to_string(),
            algorithm: 'T',
            kcv: Some(kcv.to_string()),
        }),
    }
}

#[test]
fn a_scan_resolves_to_the_smallest_arn() {
    let mut km = KeyMap::new(Vec::new());
    let bare = ApcKey {
        arn: "a0".to_string(),
        attributes: None,
        kcv: "ABCDEF".to_string(),
        enabled: true,
    };
    let summary = km.index_keys(&vec![
        key("b", "ABCDEF", true),
        key("a", "abcdef", true),
        key("0", "ABCDEF", false),
        bare,
        key("c", "ABCDEF", true),
    ]);
    assert_eq!(summary.scanned, 5);
    assert_eq!(summary.skipped_disabled, 1);
    assert_eq!(summary.indexed, 1);
    assert_eq!(summary.labels, 0);
    assert_eq!(km.resolve_descriptor(&block("ABCDEF")).unwrap(), "a");
    assert_eq!(km.resolve_descriptor(&block("abcdef")).unwrap(), "a");
}

#[test]
fn unresolved_keys_are_answered_10() {
    let km = KeyMap::new(Vec::new());
    let e = km.resolve_descriptor(&block("ABCDEF")).err().unwrap();
    assert!(matches!(
        &e,
        ProxyError::KeyNotFound(t)
            if t == "wrapped key block (usage=P0, algo=T, kcv=ABCDEF) not in APC inventory"
    ));
    let r = HandlerResult::from_proxy_error(&e);
    assert_eq!(&r.error_code, b"10");
    assert!(r.payload.as_slice().is_empty());
}

#[test]
fn apc_identifiers_pass_through_fields() {
    let km = KeyMap::new(vec![("alias/x".to_string(), "other".to_string())]);
    let desc = KeyDescriptor::label("alias/x".to_string());
    assert_eq!(km.resolve_descriptor(&desc).unwrap(), "alias/x");
}

#[test]
fn of_two_mappings_the_later_holds() {
    let km = KeyMap::new(vec![
        ("L".to_string(), "one".to_string()),
        ("L".to_string(), "two".to_string()),
    ]);
    assert_eq!(km.resolve("L").unwrap(), "two");
}

#[test]
fn emv_padding_fills_blocks() {
    assert_eq!(emv_pad(&[]), [0x80, 0, 0, 0, 0, 0, 0, 0]);
    assert_eq!(emv_pad(&[1, 2, 3, 4, 5, 6, 7]), [1, 2, 3, 4, 5, 6, 7, 0x80]);
    assert_eq!(
        emv_pad(&[1, 2, 3, 4, 5, 6, 7, 8]),
        [1, 2, 3, 4, 5, 6, 7, 8, 0x80, 0, 0, 0, 0, 0, 0, 0]
    );
}

#[test]
fn pin_block_formats_go_by_their_codes() {
    assert_eq!(
        map_pin_block_format("01").unwrap(),
        PinBlockFormat::IsoFormat0
    );
    assert!(matches!(
        map_pin_block_format("99"),
        Err(ProxyError::UnsupportedPinFormat(_))
    ));
}

#[test]
fn session_keys_carry_what_their_scheme_needs() {
    let s = build_session_key(EmvSession::Mastercard, "P", "01", "0001", "DEADBEEF");
    assert!(matches!(
        s,
        SessionKey::Mastercard { pan, pan_seq, atc, un }
            if pan == "P" && pan_seq == "01" && atc == "0001" && un == "DEADBEEF"
    ));
    let s = build_session_key(EmvSession::Visa, "P", "01", "0001", "DEADBEEF");
    assert!(matches!(s, SessionKey::Visa { pan, pan_seq } if pan == "P" && pan_seq == "01"));
}

#[test]
fn bytes_that_are_no_text_are_replaced() {
    let mut field = b"123456789012345".to_vec();
    field.push(0xFF);
    let (desc, consumed) = parse_legacy_key(&field, 0).unwrap();
    assert_eq!(desc.raw, "123456789012345\u{FFFD}");
    assert_eq!(consumed, 16);
}

#[test]
fn fields_are_consecutive() {
    let buf = [1u8, 2, 3, 4, 5];
    let mut r = FieldReader::new(&buf, "T");
    assert_eq!(r.take(2, "a").unwrap(), [1, 2]);
    assert_eq!(r.take(3, "b").unwrap(), [3, 4, 5]);
    let mut r = FieldReader::new(&buf, "T");
    assert_eq!(r.take(5, "ab").unwrap(), [1, 2, 3, 4, 5]);
    assert!(matches!(
        r.take(1, "c"),
        Err(ProxyError::MalformedPayload(t)) if t == "T: c truncated (need 1 at offset 5, have 0)"
    ));
}

#[test]
fn secrets_keep_what_they_hold() {
    let s = Secret::new("pin".to_string());
    let t = s.duplicate();
    drop(s);
    assert_eq!(t.as_str(), "pin");
    assert_eq!(SecretBytes::new(vec![1, 2]).as_slice(), [1, 2]);
}

#[test]
fn errors_in_words() {
    assert_eq!(
        ProxyError::KeyNotFound("a\"b".to_string()).message(),
        "key not found in mapping: \"a\\\"b\""
    );
    assert_eq!(
        ProxyError::MalformedPayload("x".to_string()).message(),
        "malformed command payload: x"
    );
    assert_eq!(
        ProxyError::ApcError("x".to_string()).message(),
        "APC API error: x"
    );
    assert_eq!(
        ProxyError::UnsupportedPinFormat("x".to_string()).message(),
        "unsupported PIN block format: x"
    );
    assert_eq!(
        ProxyError::UnsupportedMacMode("x".to_string()).message(),
        "unsupported MAC algorithm mode: x"
    );
}

#[test]
fn collisions_name_those_that_share() {
    let keys = vec![
        key("b", "ABCDEF", true),
        key("lone", "123456", true),
        key("a", "abcdef", true),
        key("0", "ABCDEF", false),
        key("y", "777777", true),
        key("c", "ABCDEF", true),
        key("x", "777777", true),
        key("b", "ABCDEF", true),
    ];
    let shared = collisions(&keys);
    assert_eq!(shared.len(), 2);
    assert_eq!(shared[0].key.kcv, "ABCDEF");
    assert_eq!(shared[0].arns, ["a", "b", "b", "c"]);
    assert_eq!(shared[1].key.kcv, "777777");
    assert_eq!(shared[1].arns, ["x", "y"]);
    assert!(collisions(&vec![key("a", "ABCDEF", true)]).is_empty());

    let mut km = KeyMap::new(vec![("L".to_string(), "alias/k".to_string())]);
    let summary = km.index_keys(&keys);
    assert_eq!(summary.indexed, 3);
    assert_eq!(summary.labels, 1);
    assert_eq!(km.resolve_descriptor(&block("777777")).unwrap(), "x");
    assert!(keys[3].is_disabled());
    assert!(!keys[0].is_disabled());
}
