//! A connection: from the bytes that arrive to the bytes that are answered.

use apc_proxy::handlers::futurex::FuturexModule;
use apc_proxy::handlers::registry::Registry;
use apc_proxy::handlers::{Handler, HandlerResult, Step};
use apc_proxy::key_map::KeyMap;
use apc_proxy::protocol::futurex::FuturexExcrypt;
use apc_proxy::protocol::thales::ThalesPayShield;
use apc_proxy::protocol::{Protocol, Redacted, REDACTION_NOTE};
use apc_proxy::server::{
    answer_frame, listen_mode, route, select_vendor, service_mode, sight, unanswered_frame,
    Connection, DiscoveryLog, Route, Sighting, Unanswered, Vendor, MAX_INBOUND_ACCUMULATION,
    THALES_NOTE,
};
use apc_proxy::vendor::VendorModule;

const B2: &[u8] = b"\x00\x04\x00\x00B2";

fn frame(cmd: &[u8], payload: &[u8]) -> Vec<u8> {
    let n = (2 + cmd.len() + payload.len()) as u16;
    [&n.to_be_bytes()[..], b"HD", cmd, payload].concat()
}

#[test]
fn a_heartbeat_is_answered_on_the_wire() {
    let mut c = Connection::new();
    let found = c.receive(&ThalesPayShield, B2).expect("in bounds");
    assert_eq!(found.len(), 1);
    let inbound = &found[0];
    assert_eq!(inbound.frame, B2);
    let registry = Registry::build();
    let step = match route(&registry, &inbound.command.command_code, false) {
        Route::Handle(h) => h.start(
            &inbound.command.command_code,
            inbound.command.payload_bytes(),
            &KeyMap::new(Vec::new()),
        ),
        _ => panic!("no handler"),
    };
    match step {
        Step::Done(r) => assert_eq!(
            answer_frame(&ThalesPayShield, &inbound.command, &r),
            b"\x00\x06\x00\x00B300"
        ),
        Step::Call { .. } => panic!("no call expected"),
    }
}

#[test]
fn reads_may_be_cut_anywhere() {
    let stream = [B2, &frame(b"MA", b"data"), &frame(b"NC", b"")].concat();
    let mut whole = Connection::new();
    let all = whole.receive(&ThalesPayShield, &stream).expect("in bounds");
    assert_eq!(all.len(), 3);
    for cut in 0..stream.len() {
        let mut c = Connection::new();
        let mut found = c.receive(&ThalesPayShield, &stream[..cut]).expect("in bounds");
        found.extend(c.receive(&ThalesPayShield, &stream[cut..]).expect("in bounds"));
        assert_eq!(found.len(), 3);
        for (a, b) in found.iter().zip(all.iter()) {
            assert_eq!(a.frame, b.frame);
            assert_eq!(a.command.command_code, b.command.command_code);
            assert_eq!(a.command.payload_bytes(), b.command.payload_bytes());
        }
    }
}

#[test]
fn no_byte_is_lost() {
    let stream = [B2, &frame(b"MA", b"data"), b"\x00\x20half"].concat();
    let mut c = Connection::new();
    let found = c.receive(&ThalesPayShield, &stream).expect("in bounds");
    let taken: Vec<u8> = found.iter().flat_map(|i| i.frame.clone()).collect();
    assert_eq!([&taken[..], b"\x00\x20half"].concat(), stream);
}

#[test]
fn a_flood_closes_the_connection() {
    let mut c = Connection::new();
    let chunk = vec![0u8; MAX_INBOUND_ACCUMULATION];
    assert!(c.receive(&FuturexExcrypt, &chunk).is_some());
    assert!(c.receive(&FuturexExcrypt, b"x").is_none());
}

#[test]
fn unhandled_commands_are_forwarded_or_refused() {
    let registry = Registry::build();
    assert!(matches!(route(&registry, b"ZZ", true), Route::Forward));
    assert!(matches!(route(&registry, b"ZZ", false), Route::Refuse));
    assert!(matches!(route(&registry, b"B2", true), Route::Handle(_)));
    let cmd = ThalesPayShield.parse(&frame(b"ZY", b"")).expect("parses");
    assert_eq!(
        unanswered_frame(&ThalesPayShield, &cmd, Unanswered::NoHandler),
        b"\x00\x06HDZZ68"
    );
    assert_eq!(
        unanswered_frame(&ThalesPayShield, &cmd, Unanswered::ForwardFailed),
        b"\x00\x06HDZZ41"
    );
}

#[test]
fn an_echo_is_answered_for_futurex() {
    let module = FuturexModule;
    let registry = Registry::for_module(&module);
    let protocol = module.protocol();
    let cmd = protocol.parse(b"[AOECHO;AGhello;]").expect("parses");
    match route(&registry, &cmd.command_code, false) {
        Route::Handle(h) => {
            match h.start(
                &cmd.command_code,
                cmd.payload_bytes(),
                &KeyMap::new(Vec::new()),
            ) {
                Step::Done(r) => {
                    assert_eq!(&r.error_code, b"00");
                    assert!(r.payload.as_slice().is_empty());
                }
                Step::Call { .. } => panic!("no call expected"),
            }
        }
        _ => panic!("no handler"),
    }
}

#[test]
fn a_command_is_recorded_once() {
    let mut log = DiscoveryLog::new();
    assert!(log.first_sight(b"ZZ"));
    assert!(!log.first_sight(b"ZZ"));
    assert!(log.first_sight(b"ZY"));
    assert!(!log.first_sight(b"ZZ"));
}

#[test]
fn sightings_hide_what_is_sensitive() {
    match sight(b"TPIN", b"AW1;AXsupersecret;BB\xFF;") {
        Sighting::Futurex { cmd, params, line } => {
            assert_eq!(cmd, "TPIN");
            assert!(params.contains(&("AX".to_string(), "[REDACTED]".to_string())));
            assert!(params.contains(&("AW".to_string(), "1".to_string())));
            // Bytes that are no text are replaced.
            assert!(params.contains(&("BB".to_string(), "\u{FFFD}".to_string())));
            assert!(!line.contains("supersecret"));
            assert!(line.contains("AW"));
        }
        Sighting::Thales { .. } => panic!("four bytes"),
    }
    match sight(b"ZZ", b"12345") {
        Sighting::Thales { cmd, payload_len, note } => {
            assert_eq!(cmd, "ZZ");
            assert_eq!(payload_len, 5);
            assert_eq!(note, THALES_NOTE);
        }
        Sighting::Futurex { .. } => panic!("two bytes"),
    }
}

#[test]
fn discovery_shows_nothing_but_the_length() {
    let r: Redacted = ThalesPayShield.redact_discovery(b"1234");
    assert_eq!(r.payload_len, 4);
    assert_eq!(r.note, REDACTION_NOTE);
}

#[test]
fn vendors_go_by_name() {
    assert_eq!(select_vendor("thales_payshield"), Ok(Vendor::Thales));
    assert_eq!(select_vendor("futurex_excrypt"), Ok(Vendor::Futurex));
    assert_eq!(
        select_vendor("atalla"),
        Err("unknown vendor: atalla".to_string())
    );
    assert_eq!(FuturexModule.vendor(), "futurex_excrypt");
}

#[test]
fn modes_are_named() {
    assert_eq!(listen_mode(true, true), "mTLS");
    assert_eq!(listen_mode(true, false), "TLS");
    assert_eq!(listen_mode(false, true), "plaintext");
    assert_eq!(service_mode(true), "discovery+passthrough");
    assert_eq!(service_mode(false), "proxy");
}

#[test]
fn arbitrary_bytes_never_panic() {
    let mut x: u32 = 7;
    for len in 0..200usize {
        let mut data = Vec::new();
        for _ in 0..len {
            x = x.wrapping_mul(1664525).wrapping_add(1013904223);
            data.push((x >> 24) as u8);
        }
        let _ = ThalesPayShield.parse(&data);
        let _ = FuturexExcrypt.parse(&data);
    }
}

#[test]
fn partial_frame_returns_none() {
    for body_len in 1u16..1024 {
        for actual_len in 0usize..4 {
            let mut data = body_len.to_be_bytes().to_vec();
            data.extend((0..actual_len).map(|i| i as u8));
            if data.len() < 2 + body_len as usize {
                assert!(ThalesPayShield.parse(&data).is_none());
            }
        }
    }
}

#[test]
fn valid_frame_parse_frame_len_matches_consumed() {
    for n in 0..32usize {
        let f = frame(b"CA", &vec![0x41; n]);
        let cmd = ThalesPayShield.parse(&f).expect("valid frame should parse");
        assert_eq!(cmd.frame_len, f.len());
    }
}

#[test]
fn is_response_complete_consistent_with_length_prefix() {
    for n in 0..64usize {
        let f = frame(b"CB", &vec![0x41; n]);
        assert!(ThalesPayShield.is_response_complete(&f));
        assert!(!ThalesPayShield.is_response_complete(&f[..f.len() - 1]));
    }
}

#[test]
fn answers_are_read_back() {
    let r = HandlerResult::success(b"payload".to_vec());
    let cmd = ThalesPayShield.parse(&frame(b"CA", b"")).expect("parses");
    let out = answer_frame(&ThalesPayShield, &cmd, &r);
    let back = ThalesPayShield.parse(&out).expect("parses");
    assert_eq!(back.command_code, b"CB");
    assert_eq!(back.payload_bytes(), b"00payload");
    let out = FuturexExcrypt.frame_response([0, 0], b"TPIN", b"00", b"AL12;");
    assert_eq!(out, b"[AOTPIN;AL12;BBY;]");
    let back = FuturexExcrypt.parse(&out).expect("parses");
    assert_eq!(back.command_code, b"TPIN");
    assert_eq!(back.payload_bytes(), b"AL12;BBY;");
}
