//! What one command answers with, read by another.

use apc_proxy::apc::{ApcCall, ApcReply, PinCheck};
use apc_proxy::handlers::registry::Registry;
use apc_proxy::handlers::thales::common::{bytes_to_hex, decode_bcd_pan_seq, parse_legacy_key};
use apc_proxy::handlers::thales::cvv::{parse_cw, parse_cy};
use apc_proxy::handlers::thales::dukpt_mac::parse_gw;
use apc_proxy::handlers::thales::encrypt_decrypt::parse_key_and_data;
use apc_proxy::handlers::thales::international_encrypt::parse_m0_fields;
use apc_proxy::handlers::thales::mac::{parse_c2_payload, parse_m6_payload};
use apc_proxy::handlers::{resume, Handler, Pending, Step};
use apc_proxy::key_map::KeyMap;

const KEY: &str = "1234567890ABCDEF";
const KEY_2: &str = "FEDCBA0987654321";
const LONG: &str = "1234567890ABCDEF1234567890ABCDEF";

fn call(code: &[u8], payload: &[u8]) -> (ApcCall, Pending) {
    let keys = KeyMap::new(vec![
        (KEY.to_string(), "arn:one".to_string()),
        (KEY_2.to_string(), "arn:two".to_string()),
        (LONG.to_string(), "arn:long".to_string()),
    ]);
    let registry = Registry::build();
    match registry.get(code).expect("registered").start(code, payload, &keys) {
        Step::Call { call, then } => (call, then),
        Step::Done(r) => panic!("answered {:?}", r.error_code),
    }
}

fn answer(then: Pending, reply: ApcReply) -> ([u8; 2], Vec<u8>) {
    assert!(then.accepts(&reply));
    match resume(then, reply) {
        Step::Done(r) => (r.error_code, r.payload.as_slice().to_vec()),
        Step::Call { .. } => panic!("another call"),
    }
}

#[test]
fn m2_reads_what_m0_answers() {
    let head = ["001100B", KEY].concat();
    let plain = [head.as_bytes(), b"0008AABBCCDDEE112233"].concat();
    let (_, then) = call(b"M0", &plain);
    let (_, framed) = answer(then, ApcReply::CipherText("0011223344556677".to_string()));
    let back = [head.as_bytes(), framed.as_slice()].concat();
    let f = parse_m0_fields(&back).unwrap();
    assert_eq!(f.key_id.raw, KEY);
    assert_eq!(f.data.as_str(), "0011223344556677");
    match call(b"M2", &back).0 {
        ApcCall::DecryptData { cipher_text, .. } => {
            assert_eq!(cipher_text.as_str(), "0011223344556677");
        }
        _ => panic!("no decryption"),
    }
}

#[test]
fn m8_verifies_what_m6_answers() {
    for (algorithm, size, length) in [("6", "0", 8usize), ("6", "1", 16usize)] {
        let p = ["01", size, algorithm, "1", "MA1", KEY, "0004DEADBEEF"].concat();
        let (_, then) = call(b"M6", p.as_bytes());
        let whole = "AABBCCDDEE112233";
        let (code, mac) = answer(then, ApcReply::Mac(whole.to_string()));
        assert_eq!(&code, b"00");
        assert_eq!(mac, whole.as_bytes()[..length].to_vec());

        let q = [p.as_bytes(), mac.as_slice()].concat();
        let sent = parse_m6_payload(p.as_bytes(), false).unwrap();
        let read = parse_m6_payload(&q, true).unwrap();
        assert_eq!(read.mac_to_verify, Some(whole[..length].to_string()));
        assert_eq!(read.message_hex, sent.message_hex);
        assert_eq!(read.key_id.raw, sent.key_id.raw);

        let (_, then) = call(b"M8", &q);
        assert_eq!(answer(then, ApcReply::Mac(whole.to_string())), (*b"00", Vec::new()));
        let (_, then) = call(b"M8", &q);
        let other = "AABBCCD0EE112233";
        assert_eq!(answer(then, ApcReply::Mac(other.to_string())), (*b"01", Vec::new()));
    }
}

fn pin_change(offset: &[u8]) -> Vec<u8> {
    [
        KEY.as_bytes(),
        KEY_2.as_bytes(),
        b"0404",
        b"1234567890ABCDEF",
        b"01",
        b"123456789012",
        b"1234567890123456",
        b"NNNNNNNNNNNN",
        offset,
        b"FEDCBA9876543210",
    ]
    .concat()
}

#[test]
fn an_offset_comes_back_as_it_was_generated() {
    let (_, then) = call(b"DU", &pin_change(b"1234FFFFFFFF"));
    let offset = match resume(then, ApcReply::Accepted) {
        Step::Call { then, .. } => answer(then, ApcReply::PinOffset("4321".to_string())).1,
        Step::Done(_) => panic!("no generation"),
    };
    assert_eq!(offset, b"4321FFFFFFFF".to_vec());
    match call(b"DU", &pin_change(&offset)).0 {
        ApcCall::VerifyPin { check: PinCheck::Ibm3624 { offset, .. }, .. } => {
            assert_eq!(offset, "4321");
        }
        _ => panic!("no verification"),
    }
}

#[test]
fn account_digits_are_restored() {
    for bytes in [
        [0x00, 0x12, 0x34, 0x56, 0x78, 0x90, 0x12, 0x01],
        [0x12, 0x34, 0x56, 0x78, 0x90, 0x12, 0x34, 0x01],
        [0x00, 0x00, 0x00, 0x00, 0x00, 0x00, 0x00, 0x07],
    ] {
        let (pan, seq) = decode_bcd_pan_seq(bytes);
        let digits = format!("{:0>16}", pan + &seq);
        assert_eq!(digits, bytes_to_hex(&bytes));
    }
}

#[test]
fn a_key_field_ends_where_it_ends() {
    for field in ["1234567890ABCDEF", "U1234567890ABCDEF1234567890ABCDEF"] {
        let (alone, n) = parse_legacy_key(field.as_bytes(), 0).unwrap();
        let followed = [field, "0004DEADBEEF"].concat();
        let (read, m) = parse_legacy_key(followed.as_bytes(), 0).unwrap();
        assert_eq!(n, field.len());
        assert_eq!(m, n);
        assert_eq!(read.raw, alone.raw);
    }
}

#[test]
fn c4_verifies_what_c2_answers() {
    let p = ["0101", KEY, "0004DEADBEEF"].concat();
    let (_, then) = call(b"C2", p.as_bytes());
    let (_, mac) = answer(then, ApcReply::Mac("AABBCCDDEE112233".to_string()));
    let q = [p.as_bytes(), mac.as_slice()].concat();
    let sent = parse_c2_payload(p.as_bytes(), false).unwrap();
    let read = parse_c2_payload(&q, true).unwrap();
    assert_eq!(read.mac_to_verify, Some("AABBCCDD".to_string()));
    assert_eq!(read.message_hex, sent.message_hex);
    assert_eq!(read.algorithm, sent.algorithm);
    match call(b"C4", &q).0 {
        ApcCall::VerifyMac { key, message, mac, .. } => {
            assert_eq!(key, "arn:one");
            assert_eq!(message.as_str(), "DEADBEEF");
            assert_eq!(mac, "AABBCCDD");
        }
        _ => panic!("no verification"),
    }
}

#[test]
fn legacy_macs_are_verified_as_they_were_generated() {
    for (generate, verify, head, body, data) in [
        ("MA", "MC", KEY.to_string(), "HELLO~REST", "48454C4C4F"),
        ("MK", "MM", KEY.to_string(), "005HELLOREST", "48454C4C4F"),
        ("MU", "MW", ["0", KEY].concat(), "005HELLO", "48454C4C4F"),
    ] {
        let p = [head.as_str(), body].concat();
        let (_, then) = call(generate.as_bytes(), p.as_bytes());
        let (_, mac) = answer(then, ApcReply::Mac("AABBCCDD".to_string()));
        let q = [head.as_bytes(), mac.as_slice(), body.as_bytes()].concat();
        match call(verify.as_bytes(), &q).0 {
            ApcCall::VerifyMac { key, message, mac, .. } => {
                assert_eq!(key, "arn:one");
                assert_eq!(message.as_str(), data);
                assert_eq!(mac, "AABBCCDD");
            }
            _ => panic!("no verification"),
        }
    }
}

#[test]
fn a_legacy_translation_asks_under_both_keys() {
    let p = [KEY, KEY_2, "AABBCCDD", "HELLO~"].concat();
    let (verify, then) = call(b"ME", p.as_bytes());
    assert!(matches!(
        &verify,
        ApcCall::VerifyMac { key, mac, .. } if key == "arn:one" && mac == "AABBCCDD"
    ));
    match resume(then, ApcReply::Accepted) {
        Step::Call { call: ApcCall::GenerateMac { key, message, .. }, .. } => {
            assert_eq!(key, "arn:two");
            assert_eq!(message.as_str(), "48454C4C4F");
        }
        _ => panic!("no generation"),
    }
    let (_, then) = call(b"ME", p.as_bytes());
    assert_eq!(answer(then, ApcReply::VerificationFailed), (*b"01", Vec::new()));
}

#[test]
fn cy_verifies_what_cw_answers() {
    let card = "123456789012345;2512201";
    let p = [LONG, card].concat();
    let (_, then) = call(b"CW", p.as_bytes());
    let (_, value) = answer(then, ApcReply::CardValue("123".to_string()));
    let q = [LONG.as_bytes(), value.as_slice(), card.as_bytes()].concat();
    let sent = parse_cw(p.as_bytes()).unwrap();
    let read = parse_cy(&q).unwrap();
    assert_eq!(read.cvv, "123");
    assert_eq!(read.cvk.raw, sent.cvk.raw);
    assert_eq!(read.pan, sent.pan);
    assert_eq!(read.expiry, "2512");
    assert_eq!(read.service_code, sent.service_code);
}

#[test]
fn hg_decrypts_what_he_answers() {
    let p = [KEY, "0011223344556677"].concat();
    let (_, then) = call(b"HE", p.as_bytes());
    let (_, block) = answer(then, ApcReply::CipherText("8899AABBCCDDEEFF".to_string()));
    let q = [KEY.as_bytes(), block.as_slice()].concat();
    let f = parse_key_and_data(&q, "HG").unwrap();
    assert_eq!(f.key_id.raw, KEY);
    assert_eq!(f.data.as_str(), "8899AABBCCDDEEFF");
}

#[test]
fn a_failed_translation_answers_nothing() {
    let p = ["00001100B", KEY, "00B", KEY_2, "0008AABBCCDDEE112233"].concat();
    let (_, then) = call(b"M4", p.as_bytes());
    assert_eq!(answer(then, ApcReply::VerificationFailed), (*b"41", Vec::new()));
}

#[test]
fn gw_verifies_what_gw_generates() {
    let rest = ["1011", LONG, "014", "12345678901234567890", "0004DEADBEEF"].concat();
    let p = ["0", rest.as_str()].concat();
    let (_, then) = call(b"GW", p.as_bytes());
    let (_, mac) = answer(then, ApcReply::Mac("AABBCCDDEE112233".to_string()));
    assert_eq!(mac, b"AABBCCDD".to_vec());
    let q = [b"1", rest.as_bytes(), mac.as_slice()].concat();
    let sent = parse_gw(p.as_bytes()).unwrap();
    let read = parse_gw(&q).unwrap();
    assert!(read.is_verify && !sent.is_verify);
    assert_eq!(read.mac_to_verify, Some("AABBCCDD".to_string()));
    assert_eq!(read.bdk_id.raw, sent.bdk_id.raw);
    assert_eq!(read.ksn, sent.ksn);
    assert_eq!(read.message_hex, sent.message_hex);
}
