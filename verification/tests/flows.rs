//! Commands taken from the wire to the answer, with the replies of APC played in.

use apc_proxy::apc::{ApcCall, ApcReply};
use apc_proxy::handlers::registry::Registry;
use apc_proxy::handlers::{resume, Handler, HandlerResult, Step};
use apc_proxy::key_map::KeyMap;

/// Single-length TAK key label (16 hex chars).
const SINGLE_KEY: &[u8] = b"1234567890ABCDEF";
/// 8-char MAC hex value used in verify payloads.
const MAC_8H: &[u8] = b"AABBCCDD";

/// Double-length TAK key label (U + 32 hex chars).
fn double_key() -> Vec<u8> {
    let mut v = vec![b'U'];
    v.extend_from_slice(b"1234567890ABCDEF1234567890ABCDEF");
    v
}

fn keys(pairs: &[(&str, &str)]) -> KeyMap {
    KeyMap::new(
        pairs
            .iter()
            .map(|(label, arn)| (label.to_string(), arn.to_string()))
            .collect(),
    )
}

/// Single-entry key map: `label` → `"arn:mock"`.
fn one_key(label: &str) -> KeyMap {
    keys(&[(label, "arn:mock")])
}

/// Answers every MAC and PIN call the way a healthy APC does.
fn healthy(call: &ApcCall) -> ApcReply {
    match call {
        ApcCall::GenerateMac { .. } => ApcReply::Mac("AABBCCDDEE112233".to_string()),
        ApcCall::VerifyMac { .. } | ApcCall::VerifyPin { .. } | ApcCall::VerifyCardValue { .. } => {
            ApcReply::Accepted
        }
        ApcCall::GenerateCardValue { .. } => ApcReply::CardValue("123".to_string()),
        _ => ApcReply::Failed("UnknownOperationException".to_string()),
    }
}

/// As `healthy`, but every verification is refused.
fn refusing(call: &ApcCall) -> ApcReply {
    match call {
        ApcCall::VerifyMac { .. } | ApcCall::VerifyPin { .. } => ApcReply::VerificationFailed,
        _ => healthy(call),
    }
}

/// No call is expected.
fn silent(_: &ApcCall) -> ApcReply {
    panic!("no call expected")
}

fn run(code: &[u8], payload: &[u8], keys: &KeyMap, apc: fn(&ApcCall) -> ApcReply) -> HandlerResult {
    let registry = Registry::build();
    let handler = registry.get(code).expect("registered");
    let mut step = handler.start(code, payload, keys);
    loop {
        match step {
            Step::Done(r) => return r,
            Step::Call { call, then } => {
                let reply = apc(&call);
                assert!(then.accepts(&reply));
                step = resume(then, reply);
            }
        }
    }
}

// ── Heartbeat ────────────────────────────────────────────────────────────────

#[test]
fn thales_b2_heartbeat_returns_success() {
    let result = run(b"B2", b"", &keys(&[]), silent);
    assert_eq!(&result.error_code, b"00");
}

// ── Legacy TAK MAC — MA (generate) ───────────────────────────────────────────

#[test]
fn ma_answers_the_eight_digits_of_the_wire() {
    let mut payload = SINGLE_KEY.to_vec(); // TAK key label
    payload.extend_from_slice(b"MESSAGEDATA"); // raw message bytes
    let result = run(b"MA", &payload, &one_key("1234567890ABCDEF"), healthy);
    assert_eq!(&result.error_code, b"00", "expected success");
    assert_eq!(result.payload.as_slice(), b"AABBCCDD");
}

#[test]
fn thales_ma_key_not_found_returns_10() {
    let mut payload = SINGLE_KEY.to_vec();
    payload.extend_from_slice(b"DATA");
    let result = run(b"MA", &payload, &keys(&[]), silent);
    assert_eq!(&result.error_code, b"10", "unknown key → error 10");
}

#[test]
fn thales_ma_double_key_success() {
    let dk = double_key();
    let label = String::from_utf8(dk.clone()).unwrap();
    let mut payload = dk;
    payload.extend_from_slice(b"DATA");
    let result = run(b"MA", &payload, &one_key(&label), healthy);
    assert_eq!(&result.error_code, b"00");
}

// ── Legacy TAK MAC — MC (verify) ─────────────────────────────────────────────

#[test]
fn thales_mc_verify_mac_success() {
    let mut payload = SINGLE_KEY.to_vec(); // TAK
    payload.extend_from_slice(MAC_8H); // 8H MAC to verify
    payload.extend_from_slice(b"MESSAGEDATA");
    let result = run(b"MC", &payload, &one_key("1234567890ABCDEF"), healthy);
    assert_eq!(&result.error_code, b"00");
    assert!(
        result.payload.as_slice().is_empty(),
        "MC success payload is empty"
    );
}

#[test]
fn thales_mc_verify_mac_mismatch_returns_01() {
    let mut payload = SINGLE_KEY.to_vec();
    payload.extend_from_slice(MAC_8H);
    payload.extend_from_slice(b"MESSAGEDATA");
    let result = run(b"MC", &payload, &one_key("1234567890ABCDEF"), refusing);
    assert_eq!(&result.error_code, b"01", "MAC mismatch → error 01");
}

#[test]
fn thales_mc_payload_too_short_returns_15() {
    // Key is 16 bytes but no MAC field follows
    let payload = SINGLE_KEY.to_vec();
    let result = run(b"MC", &payload, &one_key("1234567890ABCDEF"), silent);
    assert_eq!(&result.error_code, b"15", "truncated payload → error 15");
}

// ── Legacy TAK MAC — ME (verify + translate) ─────────────────────────────────

#[test]
fn me_verifies_then_answers_the_new_mac() {
    let mut payload = SINGLE_KEY.to_vec(); // src TAK: "1234567890ABCDEF"
    payload.extend_from_slice(b"FEDCBA0987654321"); // dst TAK (also single-length)
    payload.extend_from_slice(MAC_8H); // MAC to verify
    payload.extend_from_slice(b"MSGDATA");
    let result = run(
        b"ME",
        &payload,
        &keys(&[
            ("1234567890ABCDEF", "arn:mock:src"),
            ("FEDCBA0987654321", "arn:mock:dst"),
        ]),
        healthy,
    );
    assert_eq!(&result.error_code, b"00");
    assert_eq!(result.payload.as_slice(), b"AABBCCDD");
}

#[test]
fn thales_me_verify_step_mismatch_returns_01() {
    let mut payload = SINGLE_KEY.to_vec();
    payload.extend_from_slice(b"FEDCBA0987654321");
    payload.extend_from_slice(MAC_8H);
    payload.extend_from_slice(b"DATA");
    let result = run(
        b"ME",
        &payload,
        &keys(&[
            ("1234567890ABCDEF", "arn:mock"),
            ("FEDCBA0987654321", "arn:mock"),
        ]),
        refusing,
    );
    assert_eq!(&result.error_code, b"01");
}

// ── DUKPT PIN verify — CK (IBM 3624) ─────────────────────────────────────────

fn ck_keys() -> KeyMap {
    keys(&[
        // BDK: 32H key label
        ("12345678901234561234567890123456", "arn:mock:bdk"),
        // PVK: 16H key label
        ("1234567890ABCDEF", "arn:mock:pvk"),
    ])
}

fn ck_payload() -> Vec<u8> {
    let mut payload = b"12345678901234561234567890123456".to_vec(); // BDK 32H
    payload.extend_from_slice(b"1234567890ABCDEF"); // PVK 16H
    payload.extend_from_slice(b"00A"); // KSN descriptor
    payload.extend_from_slice(b"12345678901234567890"); // KSN 20H
    payload.extend_from_slice(b"1234567890ABCDEF"); // PIN block 16H
    payload.extend_from_slice(b"04"); // check length
    payload.extend_from_slice(b"123456789012"); // account 12N
    payload.extend_from_slice(b"1234567890123456"); // decim table 16N
    payload.extend_from_slice(b"NNNNNNNNNNNN"); // pin val data 12A
    payload.extend_from_slice(b"123456789012"); // offset 12H
    payload
}

#[test]
fn thales_ck_verify_pin_success() {
    let result = run(b"CK", &ck_payload(), &ck_keys(), healthy);
    assert_eq!(&result.error_code, b"00");
}

#[test]
fn thales_ck_verify_pin_mismatch_returns_01() {
    let result = run(b"CK", &ck_payload(), &ck_keys(), refusing);
    assert_eq!(&result.error_code, b"01", "PIN mismatch → 01");
}

// ── Commands without a counterpart ───────────────────────────────────────────

#[test]
fn unsupported_command_returns_68() {
    // The Diebold method keeps its table in the HSM's user storage.
    let result = run(b"CO", b"", &keys(&[]), silent);
    assert_eq!(&result.error_code, b"68");
    // The encrypted-PIN method compares under the LMK.
    let result = run(b"CQ", b"", &keys(&[]), silent);
    assert_eq!(&result.error_code, b"68");
}

#[test]
fn noop_handler_returns_68_for_all_registered_commands() {
    for cmd in [b"B0" as &[u8], b"LE", b"EM", b"RA"] {
        let result = run(cmd, b"", &keys(&[]), silent);
        assert_eq!(
            &result.error_code,
            b"68",
            "cmd {} should return 68",
            String::from_utf8_lossy(cmd)
        );
    }
}
