//! What each command asks of APC, and what it makes of the reply.

use apc_proxy::apc::{
    ApcCall, ApcReply, AuthResponse, Cipher, MacAlgorithm, MacScheme, MajorKeyDerivation, PinCheck,
    PinGeneration, SessionKeyDerivationMode, SmiValue, TranslationFormat,
};
use apc_proxy::handlers::registry::{Registered, Registry};
use apc_proxy::handlers::thales::common::{DukptDerivationType, PinBlockFormat, SessionKey};
use apc_proxy::handlers::{resume, Handler, HandlerResult, Pending, Step};
use apc_proxy::key_map::KeyMap;

const KEY: &str = "1234567890ABCDEF";
const KEY_2: &str = "FEDCBA0987654321";
const LONG: &str = "1234567890ABCDEF1234567890ABCDEF";
const PAN_SEQ: [u8; 8] = [0x12, 0x34, 0x56, 0x78, 0x90, 0x12, 0x34, 0x01];

fn keys() -> KeyMap {
    KeyMap::new(vec![
        (KEY.to_string(), "arn:one".to_string()),
        (KEY_2.to_string(), "arn:two".to_string()),
        (LONG.to_string(), "arn:long".to_string()),
    ])
}

fn start(code: &[u8], payload: &[u8]) -> Step {
    let registry = Registry::build();
    let handler = registry.get(code).expect("registered");
    assert!(matches!(handler, Registered::Vendor(_)));
    handler.start(code, payload, &keys())
}

fn call(code: &[u8], payload: &[u8]) -> (ApcCall, Pending) {
    match start(code, payload) {
        Step::Call { call, then } => (call, then),
        Step::Done(r) => panic!("answered {:?}", r.error_code),
    }
}

fn done(step: Step) -> HandlerResult {
    match step {
        Step::Done(r) => r,
        Step::Call { .. } => panic!("another call"),
    }
}

fn bytes(parts: &[&[u8]]) -> Vec<u8> {
    parts.concat()
}

fn answer(then: Pending, reply: ApcReply) -> (String, String) {
    assert!(then.accepts(&reply));
    let r = done(resume(then, reply));
    (
        String::from_utf8(r.error_code.to_vec()).unwrap(),
        String::from_utf8(r.payload.as_slice().to_vec()).unwrap(),
    )
}

fn pair(code: &str, payload: &str) -> (String, String) {
    (code.to_string(), payload.to_string())
}

fn refusal(code: &[u8], payload: &[u8]) -> String {
    let r = done(start(code, payload));
    assert!(r.payload.as_slice().is_empty());
    String::from_utf8(r.error_code.to_vec()).unwrap()
}

// ── MACs ─────────────────────────────────────────────────────────────────────

#[test]
fn c2_generates_four_bytes() {
    let p = bytes(&[b"0101", KEY.as_bytes(), b"0004DEADBEEF"]);
    let (c, then) = call(b"C2", &p);
    match c {
        ApcCall::GenerateMac { key, message, scheme, .. } => {
            assert_eq!(key, "arn:one");
            assert_eq!(message.as_str(), "DEADBEEF");
            assert!(matches!(
                scheme,
                MacScheme::Algorithm(MacAlgorithm::Iso9797Algorithm1)
            ));
        }
        _ => panic!("not a MAC"),
    }
    assert_eq!(
        answer(then, ApcReply::Mac("AABBCCDDEE112233".to_string())),
        pair("00", "AABBCCDD")
    );
}

#[test]
fn c4_hands_the_mac_to_apc() {
    let p = bytes(&[b"0111", KEY.as_bytes(), b"0004DEADBEEFAABBCCDD"]);
    let (c, then) = call(b"C4", &p);
    match c {
        ApcCall::VerifyMac { mac, scheme, .. } => {
            assert_eq!(mac, "AABBCCDD");
            assert!(matches!(
                scheme,
                MacScheme::Algorithm(MacAlgorithm::Iso9797Algorithm3)
            ));
        }
        _ => panic!("not a verification"),
    }
    assert_eq!(answer(then, ApcReply::Accepted), pair("00", ""));
}

#[test]
fn m8_compares_the_front_of_a_cmac() {
    let p = bytes(&[b"01061MA1", KEY.as_bytes(), b"0004DEADBEEFaabbccdd"]);
    let (c, then) = call(b"M8", &p);
    assert!(matches!(
        c,
        ApcCall::GenerateMac { scheme: MacScheme::Algorithm(MacAlgorithm::Cmac), .. }
    ));
    assert_eq!(
        answer(then, ApcReply::Mac("AABBCCDDEE112233".to_string())),
        pair("00", "")
    );
    let (_, then) = call(b"M8", &p);
    assert_eq!(
        answer(then, ApcReply::Mac("AABBCCD0EE112233".to_string())),
        pair("01", "")
    );
    let (_, then) = call(b"M8", &p);
    assert!(!then.accepts(&ApcReply::Mac("AABB".to_string())));
}

#[test]
fn my_translates_only_what_verifies() {
    let p = bytes(&[
        b"01011MA1",
        KEY.as_bytes(),
        b"061MA1",
        KEY_2.as_bytes(),
        b"0004DEADBEEFAABBCCDD",
    ]);
    let (c, then) = call(b"MY", &p);
    match c {
        ApcCall::GenerateMac { key, .. } | ApcCall::VerifyMac { key, .. } => {
            assert_eq!(key, "arn:one")
        }
        _ => panic!("not a MAC"),
    }
    assert_eq!(answer(then, ApcReply::VerificationFailed).1, "");
}

#[test]
fn gw_verifies_under_the_working_key() {
    let p = bytes(&[
        b"11031",
        LONG.as_bytes(),
        b"014",
        b"12345678901234567890",
        b"0004DEADBEEFCCDDAABB",
    ]);
    let (c, then) = call(b"GW", &p);
    match c {
        ApcCall::VerifyMac {
            key,
            mac,
            scheme: MacScheme::DukptBidirectional { algorithm, ksn, derivation },
            ..
        } => {
            assert_eq!(key, "arn:long");
            assert_eq!(mac, "CCDDAABB");
            assert_eq!(algorithm, MacAlgorithm::Iso9797Algorithm3);
            assert_eq!(ksn, "12345678901234567890");
            assert_eq!(derivation, DukptDerivationType::Tdes2Key);
        }
        _ => panic!("not a DUKPT verification"),
    }
    assert_eq!(answer(then, ApcReply::VerificationFailed), pair("01", ""));
}

#[test]
fn ku_asks_for_an_emv_mac() {
    let p = bytes(&[
        b"00",
        LONG.as_bytes(),
        &PAN_SEQ,
        &[0, 0, 0, 0, 0, 0, 0x12, 0x34],
        &[0xAB, 0xCD],
        b";",
    ]);
    let (c, _) = call(b"KU", &p);
    match c {
        ApcCall::GenerateMac {
            key,
            message,
            scheme: MacScheme::EmvOptionA { pan, pan_seq, mode, value },
            ..
        } => {
            assert_eq!(key, "arn:long");
            assert_eq!(message.as_str(), "ABCD800000000000");
            assert_eq!(pan, "12345678901234");
            assert_eq!(pan_seq, "01");
            assert_eq!(mode, SessionKeyDerivationMode::Visa);
            assert!(matches!(value, SmiValue::Atc(a) if a == "1234"));
        }
        _ => panic!("not an EMV MAC"),
    }
    assert_eq!(refusal(b"KY", b""), "68");
}

// ── data ─────────────────────────────────────────────────────────────────────

#[test]
fn he_and_hg_pass_one_block() {
    let p = bytes(&[KEY.as_bytes(), b"AABBCCDDEE112233"]);
    let (c, then) = call(b"HE", &p);
    assert!(
        matches!(&c, ApcCall::EncryptData { plain_text, cipher: Cipher::Ecb, .. }
            if plain_text.as_str() == "AABBCCDDEE112233")
    );
    assert_eq!(
        answer(then, cipher_text("0011223344556677")),
        pair("00", "0011223344556677")
    );
    let (c, then) = call(b"HG", &p);
    assert!(matches!(c, ApcCall::DecryptData { .. }));
    assert_eq!(
        answer(then, ApcReply::PlainText("0011223344556677".to_string())),
        pair("00", "0011223344556677")
    );
}

fn cipher_text(text: &str) -> ApcReply {
    ApcReply::CipherText(text.to_string())
}

#[test]
fn m0_frames_the_cipher_text() {
    let p = bytes(&[b"001100B", KEY.as_bytes(), b"0008AABBCCDDEE112233"]);
    let (_, then) = call(b"M0", &p);
    assert_eq!(
        answer(then, cipher_text("0011223344556677")),
        pair("00", "00080011223344556677")
    );
    let (_, then) = call(b"M2", &p);
    assert_eq!(
        answer(then, ApcReply::PlainText("00112233".to_string())),
        pair("00", "000400112233")
    );
}

#[test]
fn m4_decrypts_then_encrypts() {
    let p = bytes(&[
        b"000011",
        b"00B",
        KEY.as_bytes(),
        b"00B",
        KEY_2.as_bytes(),
        b"0008AABBCCDDEE112233",
    ]);
    let (c, then) = call(b"M4", &p);
    assert!(matches!(&c, ApcCall::DecryptData { key, .. } if key == "arn:one"));
    match resume(then, ApcReply::PlainText("0102030405060708".to_string())) {
        Step::Call { call: ApcCall::EncryptData { key, plain_text, .. }, then } => {
            assert_eq!(key, "arn:two");
            assert_eq!(plain_text.as_str(), "0102030405060708");
            assert_eq!(
                answer(then, cipher_text("FFEEDDCCBBAA9988")),
                pair("00", "0008FFEEDDCCBBAA9988")
            );
        }
        _ => panic!("no encryption"),
    }
}

#[test]
fn k0_derives_the_session_from_the_counter() {
    let p = bytes(&[
        b"00E",
        KEY.as_bytes(),
        &PAN_SEQ,
        &[0x00, 0x2A],
        &[0x00, 0x02],
        &[0xDE, 0xAD],
    ]);
    let (c, then) = call(b"K0", &p);
    match c {
        ApcCall::DecryptData {
            cipher_text,
            cipher: Cipher::EmvOptionACbc { session_data, .. },
            ..
        } => {
            assert_eq!(cipher_text.as_str(), "DEAD");
            assert_eq!(session_data, "002A000000000000");
        }
        _ => panic!("not an EMV decryption"),
    }
    assert_eq!(
        answer(then, ApcReply::Failed("x".to_string())),
        pair("41", "")
    );
}

// ── PINs ─────────────────────────────────────────────────────────────────────

#[test]
fn cc_translates_the_pin_block() {
    let p = bytes(&[
        KEY.as_bytes(),
        KEY_2.as_bytes(),
        b"121234567890ABCDEF0547432109876543",
    ]);
    let (c, then) = call(b"CC", &p);
    match c {
        ApcCall::TranslatePin { incoming_key, outgoing_key, pin_block, incoming, outgoing } => {
            assert_eq!(incoming_key, "arn:one");
            assert_eq!(outgoing_key, "arn:two");
            assert_eq!(pin_block.as_str(), "1234567890ABCDEF");
            assert!(matches!(incoming, TranslationFormat::IsoFormat1));
            assert!(
                matches!(outgoing, TranslationFormat::IsoFormat3 { pan } if pan == "432109876543")
            );
        }
        _ => panic!("not a translation"),
    }
    assert_eq!(
        answer(then, ApcReply::PinBlock("FFEEDDCCBBAA9988".to_string())),
        pair("00", "FFEEDDCCBBAA9988")
    );
    assert_eq!(refusal(b"G0", b""), "68");
    assert_eq!(refusal(b"BQ", b""), "68");
}

fn ibm_payload(format: &[u8]) -> Vec<u8> {
    bytes(&[
        KEY.as_bytes(),
        KEY_2.as_bytes(),
        b"0404",
        b"1234567890ABCDEF",
        format,
        b"123456789012",
        b"1234567890123456",
        b"NNNNNNNNNNNN",
        b"123456FFFFFF",
    ])
}

#[test]
fn da_strips_the_padding_of_the_offset() {
    let (c, then) = call(b"DA", &ibm_payload(b"01"));
    match c {
        ApcCall::VerifyPin {
            encryption_key,
            verification_key,
            pan,
            format,
            check: PinCheck::Ibm3624 { pad_character, offset, .. },
            dukpt,
            ..
        } => {
            assert_eq!(encryption_key, "arn:one");
            assert_eq!(verification_key, "arn:two");
            assert_eq!(pan, "123456789012");
            assert_eq!(format, PinBlockFormat::IsoFormat0);
            assert_eq!(pad_character, 'F');
            assert_eq!(offset, "123456");
            assert!(dukpt.is_none());
        }
        _ => panic!("not a verification"),
    }
    assert_eq!(answer(then, ApcReply::Accepted), pair("00", ""));
    assert_eq!(refusal(b"EA", &ibm_payload(b"99")), "23");
}

#[test]
fn du_generates_an_offset_after_the_verification() {
    let mut p = ibm_payload(b"01");
    p.extend_from_slice(b"FEDCBA9876543210");
    let (_, then) = call(b"DU", &p);
    match resume(then, ApcReply::Accepted) {
        Step::Call {
            call:
                ApcCall::GeneratePin {
                    generation_key,
                    generation: PinGeneration::Ibm3624Offset { pin_block, .. },
                    ..
                },
            then,
        } => {
            assert_eq!(generation_key, "arn:two");
            assert_eq!(pin_block.as_str(), "FEDCBA9876543210");
            assert_eq!(
                answer(then, ApcReply::PinOffset("4321".to_string())),
                pair("00", "4321FFFFFFFF")
            );
        }
        _ => panic!("no generation"),
    }
    let (_, then) = call(b"DU", &p);
    assert_eq!(answer(then, ApcReply::VerificationFailed), pair("01", ""));
}

#[test]
fn cu_generates_a_value_after_the_verification() {
    let p = bytes(&[
        KEY.as_bytes(),
        LONG.as_bytes(),
        b"0404",
        b"1234567890ABCDEF",
        b"01",
        b"123456789012",
        b"1",
        b"1234",
        b"FEDCBA9876543210",
    ]);
    let (c, then) = call(b"CU", &p);
    assert!(matches!(
        &c,
        ApcCall::VerifyPin { check: PinCheck::Visa { key_index: 1, value }, .. } if value == "1234"
    ));
    match resume(then, ApcReply::Accepted) {
        Step::Call { call: ApcCall::GeneratePin { .. }, then } => {
            assert_eq!(
                answer(then, ApcReply::PinVerificationValue("9876".to_string())),
                pair("00", "9876")
            );
        }
        _ => panic!("no generation"),
    }
    let (_, then) = call(b"CU", &p);
    match resume(then, ApcReply::Accepted) {
        Step::Call { then, .. } => {
            assert_eq!(answer(then, ApcReply::OtherPinData), pair("41", ""));
        }
        _ => panic!("no generation"),
    }
}

#[test]
fn commands_without_a_counterpart_are_disabled() {
    for code in [
        b"CM" as &[u8],
        b"GQ",
        b"GA",
        b"CE",
        b"JA",
        b"NY",
        b"RY",
        b"QY",
        b"PM",
        b"LQ",
        b"LS",
    ] {
        assert_eq!(refusal(code, b""), "68");
    }
}

// ── card values and cryptograms ──────────────────────────────────────────────

#[test]
fn cw_and_cy_go_by_the_card() {
    let p = bytes(&[LONG.as_bytes(), b"371449635398431;2512201"]);
    let (c, then) = call(b"CW", &p);
    match c {
        ApcCall::GenerateCardValue { key, pan, expiry, service_code } => {
            assert_eq!(key, "arn:long");
            assert_eq!(pan, "371449635398431");
            assert_eq!(expiry, "2512");
            assert_eq!(service_code, "201");
        }
        _ => panic!("not a card value"),
    }
    assert_eq!(
        answer(then, ApcReply::CardValue("123".to_string())),
        pair("00", "123")
    );
    let p = bytes(&[LONG.as_bytes(), b"999371449635398431;2512201"]);
    let (c, then) = call(b"CY", &p);
    assert!(matches!(&c, ApcCall::VerifyCardValue { value, .. } if value == "999"));
    assert_eq!(answer(then, ApcReply::VerificationFailed), pair("01", ""));
}

#[test]
fn kq_answers_the_response_cryptogram() {
    let p = bytes(&[
        b"11",
        b"00E",
        KEY.as_bytes(),
        &PAN_SEQ,
        &[0x00, 0x01],
        &[0xDE, 0xAD, 0xBE, 0xEF],
        &[0x00, 0x02],
        &[0xDE, 0xAD],
        b";",
        &[0xAA, 0xBB, 0xCC, 0xDD, 0xEE, 0xFF, 0x00, 0x11],
        &[0x00, 0x10],
    ]);
    let (c, then) = call(b"KQ", &p);
    match c {
        ApcCall::VerifyCryptogram {
            transaction_data,
            cryptogram,
            derivation,
            session,
            response,
            ..
        } => {
            assert_eq!(transaction_data.as_str(), "DEAD800000000000");
            assert_eq!(cryptogram, "AABBCCDDEEFF0011");
            assert_eq!(derivation, MajorKeyDerivation::EmvOptionA);
            assert!(matches!(session, SessionKey::Mastercard { un, .. } if un == "DEADBEEF"));
            assert!(matches!(
                response,
                Some(AuthResponse::Method1 { auth_response_code }) if auth_response_code == "0010"
            ));
        }
        _ => panic!("not a cryptogram"),
    }
    assert_eq!(
        answer(then, ApcReply::Cryptogram(Some("0102030405060708".to_string()))),
        pair("00", "0102030405060708")
    );
}

#[test]
fn k2_derives_by_option_b() {
    let p = bytes(&[
        b"00E",
        KEY.as_bytes(),
        &[0x12, 0x34, 0x56, 0x78, 0x90, 0x12, 0x01, 0xFF],
        &[0x00, 0x01],
        &[0xDE, 0xAD, 0xBE, 0xEF],
        &[0x00, 0x01],
        &[0xAB],
        b";",
        &[0xAA, 0xBB, 0xCC, 0xDD, 0xEE, 0xFF, 0x00, 0x11],
    ]);
    let (c, then) = call(b"K2", &p);
    assert!(matches!(
        c,
        ApcCall::VerifyCryptogram { derivation: MajorKeyDerivation::EmvOptionB, .. }
    ));
    assert_eq!(answer(then, ApcReply::Cryptogram(None)), pair("00", ""));
}

// ── errors ───────────────────────────────────────────────────────────────────

#[test]
fn each_error_has_its_code() {
    let unknown = bytes(&[b"0000000000000000", b"AABBCCDDEE112233"]);
    assert_eq!(refusal(b"HE", &unknown), "10"); // KeyNotFound
    assert_eq!(refusal(b"HE", b"12"), "15"); // MalformedPayload
    assert_eq!(
        refusal(b"M6", &bytes(&[b"01021MA1", KEY.as_bytes(), b"0002AABB"])),
        "15"
    ); // UnsupportedMacMode
    assert_eq!(refusal(b"DA", &ibm_payload(b"99")), "23"); // UnsupportedPinFormat
    assert_eq!(refusal(b"CM", b""), "68"); // Unsupported
    let p = bytes(&[KEY.as_bytes(), b"AABBCCDDEE112233"]);
    let (_, then) = call(b"HE", &p);
    assert_eq!(
        answer(then, ApcReply::Failed("down".to_string())),
        pair("41", "")
    ); // ApcError
    let (_, then) = call(b"DA", &ibm_payload(b"01"));
    assert_eq!(answer(then, ApcReply::VerificationFailed), pair("01", "")); // VerificationFailed
}

#[test]
fn a_reply_that_does_not_fit_is_an_error() {
    let p = bytes(&[KEY.as_bytes(), b"AABBCCDDEE112233"]);
    let (_, then) = call(b"HE", &p);
    assert_eq!(answer(then, ApcReply::Accepted), pair("41", ""));
}
