//! Checks before going live.

use apc_proxy::hsm_probe::{parse_bv, thales_kcv, BvParse, Probe, ProbeOutcome, ProbeStep};
use apc_proxy::protocol::thales::ThalesPayShield;
use apc_proxy::protocol::Protocol;
use apc_proxy::verify::{
    check_discover_tls, check_file_exists, check_listen_tls, check_one_key, judge,
    note_credentials, note_scan, report_lines, short, Credentials, DiscoverFiles, FileFact,
    ForwardFiles, HsmKcvProbe, KeyCheck, KeyFacts, KeyReply, ListenFiles, Report, RULE,
};

fn facts(state: &str, enabled: bool, attributes: bool) -> KeyReply {
    KeyReply::Key(KeyFacts {
        state: state.to_string(),
        enabled,
        kcv: "D5D44F".to_string(),
        attributes: if attributes {
            Some(("TR31_P0".to_string(), "TDES_2KEY".to_string()))
        } else {
            None
        },
    })
}

fn file(path: &str, exists: bool) -> FileFact {
    FileFact { path: path.to_string(), exists }
}

#[test]
fn usable_keys_are_complete_and_enabled() {
    assert!(matches!(
        check_one_key(facts("CREATE_COMPLETE", true, true)),
        KeyCheck::Usable { kcv, usage, algo }
            if kcv == "D5D44F" && usage == "TR31_P0" && algo == "TDES_2KEY"
    ));
    assert!(matches!(
        check_one_key(facts("CREATE_IN_PROGRESS", true, true)),
        KeyCheck::WrongState(s) if s == "CREATE_IN_PROGRESS"
    ));
    assert!(matches!(
        check_one_key(facts("CREATE_COMPLETE", false, true)),
        KeyCheck::Disabled
    ));
    assert!(matches!(
        check_one_key(facts("CREATE_COMPLETE", true, false)),
        KeyCheck::ApiError(e) if e == "get_key returned no KeyAttributes"
    ));
    assert!(matches!(
        check_one_key(KeyReply::NoKey),
        KeyCheck::ApiError(e) if e == "get_key returned no Key field"
    ));
    assert!(matches!(
        check_one_key(KeyReply::Failed("x ResourceNotFoundException y".to_string())),
        KeyCheck::NotFound
    ));
    assert!(matches!(
        check_one_key(KeyReply::Failed("timeout".to_string())),
        KeyCheck::ApiError(e) if e == "timeout"
    ));
}

#[test]
fn arns_are_shortened() {
    assert_eq!(
        short("arn:aws:payment-cryptography:us-east-1:000000000000:key/abc"),
        "key/abc"
    );
    assert_eq!(short("alias/foo"), "alias/foo");
}

fn usable() -> KeyCheck {
    KeyCheck::Usable {
        kcv: "D5D44F".to_string(),
        usage: "U".to_string(),
        algo: "A".to_string(),
    }
}

#[test]
fn only_bad_mappings_fail() {
    let mut report = Report::new();
    let mut probe = HsmKcvProbe::from_config("thales_payshield", Some(("hsm", 1500)), &mut report);
    assert!(probe.wants(&usable()));
    assert_eq!(
        report.ok,
        ["HSM-side KCV cross-check enabled against hsm:1500 (BU probe)"]
    );
    let label = "L".to_string() + &" ".repeat(35);
    judge("L", "alias/k", &usable(), None, &mut probe, &mut report);
    assert_eq!(
        report.ok[1],
        format!("{label} → alias/k (U/A, KCV=D5D44F)")
    );
    judge(
        "L",
        "alias/k",
        &usable(),
        Some(ProbeOutcome::Kcv("D5D44F0000000000".to_string())),
        &mut probe,
        &mut report,
    );
    assert!(report.ok[2].ends_with(", HSM=D5D44F0000000000 ✓)"));
    judge(
        "L",
        "alias/k",
        &usable(),
        Some(ProbeOutcome::KeyTypeUnknown),
        &mut probe,
        &mut report,
    );
    assert!(report.is_clean());
    assert_eq!(report.warnings.len(), 1);
    judge(
        "L",
        "alias/k",
        &usable(),
        Some(ProbeOutcome::Kcv("B12345".to_string())),
        &mut probe,
        &mut report,
    );
    judge("L", "alias/k", &KeyCheck::NotFound, None, &mut probe, &mut report);
    assert_eq!(
        report.errors,
        [
            format!("{label} → alias/k APC KCV=D5D44F, HSM KCV=B12345 — KEY MISMATCH"),
            format!("{label} → alias/k NOT FOUND in APC"),
        ]
    );
}

#[test]
fn a_stopped_probe_stays_stopped() {
    let mut report = Report::new();
    let mut probe = HsmKcvProbe::from_config("thales_payshield", Some(("hsm", 1500)), &mut report);
    judge(
        "L",
        "alias/k",
        &usable(),
        Some(ProbeOutcome::CommandDisabled),
        &mut probe,
        &mut report,
    );
    assert!(!probe.wants(&usable()));
    judge("L", "alias/k", &usable(), None, &mut probe, &mut report);
    assert!(!probe.wants(&usable()));
    let futurex = HsmKcvProbe::from_config("futurex_excrypt", Some(("hsm", 1)), &mut report);
    assert!(!futurex.wants(&usable()));
    assert!(!HsmKcvProbe::from_config("thales_payshield", None, &mut report).wants(&usable()));
}

#[test]
fn the_verdict_is_the_last_line() {
    let mut report = Report::new();
    assert!(note_credentials(&Credentials::Resolved, &mut report));
    note_scan(Some("denied".to_string()), &mut report);
    let lines = report_lines(&report);
    assert_eq!(
        lines,
        [
            "  ok    AWS credentials resolved",
            "  warn  APC list_keys scan failed: denied — wrapped-key resolution will not work at runtime",
            RULE,
            "1 ok, 1 warning(s), 0 error(s)",
            "Verification PASSED — config is ready to serve.",
        ]
    );
    assert!(!note_credentials(&Credentials::NoProvider, &mut report));
    assert!(!note_credentials(&Credentials::Refused("expired".to_string()), &mut report));
    note_scan(None, &mut report);
    let lines = report_lines(&report);
    assert_eq!(
        lines.last().unwrap(),
        "Verification FAILED — fix errors before starting the proxy."
    );
    assert_eq!(
        report.errors,
        ["no AWS credentials provider in config", "AWS credentials: expired"]
    );
}

#[test]
fn tls_files_are_noted() {
    let mut report = Report::new();
    check_listen_tls(&None, &mut report);
    assert_eq!(
        report.warnings,
        ["inbound TLS not configured — plaintext listener (development only)"]
    );
    check_listen_tls(
        &Some(ListenFiles {
            cert_file: file("c", true),
            key_file: file("k", false),
            ca_file: Some(file("a", true)),
        }),
        &mut report,
    );
    assert_eq!(
        report.ok,
        ["listen.tls.cert_file: c", "listen.tls.ca_file (mTLS): a"]
    );
    assert_eq!(report.errors, ["listen.tls.key_file does not exist: k"]);
    check_discover_tls(&None, &mut report);
    check_discover_tls(&Some(DiscoverFiles { enabled: false, tls: None }), &mut report);
    assert_eq!(report.warnings.len(), 1);
    check_discover_tls(&Some(DiscoverFiles { enabled: true, tls: None }), &mut report);
    assert_eq!(report.warnings.len(), 2);
    check_discover_tls(
        &Some(DiscoverFiles {
            enabled: true,
            tls: Some(ForwardFiles {
                ca_file: file("ca", true),
                client_cert_file: Some(file("cc", true)),
                client_key_file: None,
            }),
        }),
        &mut report,
    );
    assert_eq!(
        report.errors[1],
        "discover.tls: client_cert_file and client_key_file must be provided together"
    );
    check_file_exists("x", &file("y", true), &mut report);
    assert_eq!(report.ok.last().unwrap(), "x: y");
}

fn bv(error: &[u8], kcv: &[u8]) -> Vec<u8> {
    ThalesPayShield.frame_response(*b"PB", b"BV", error, kcv)
}

fn sent(step: ProbeStep) -> (Vec<u8>, Probe) {
    match step {
        ProbeStep::Send { frame, probe } => (frame, probe),
        ProbeStep::Done(o) => panic!("done with {:?}", o),
    }
}

#[test]
fn a_probe_asks_in_turn_and_ends() {
    let (frame, probe) = sent(thales_kcv("0123456789ABCDEF"));
    let q = ThalesPayShield.parse(&frame).expect("parses");
    assert_eq!(q.header, *b"PB");
    assert_eq!(q.command_code, b"BU");
    assert_eq!(q.payload_bytes(), b"0100123456789ABCDEF;001");
    let (frame, probe) = sent(probe.resume(Ok(bv(b"10", b""))));
    let q = ThalesPayShield.parse(&frame).expect("parses");
    assert_eq!(q.payload_bytes(), b"0200123456789ABCDEF;001");
    let (_, probe) = sent(probe.resume(Ok(bv(b"10", b""))));
    let (_, probe) = sent(probe.resume(Ok(bv(b"10", b""))));
    match probe.resume(Ok(bv(b"10", b""))) {
        ProbeStep::Done(o) => assert_eq!(o, ProbeOutcome::KeyTypeUnknown),
        ProbeStep::Send { .. } => panic!("a fifth question"),
    }
}

#[test]
fn a_probe_settles_on_the_first_check_value() {
    let (_, probe) = sent(thales_kcv("0123456789ABCDEF"));
    match probe.resume(Ok(bv(b"00", b"d5d44f"))) {
        ProbeStep::Done(o) => assert_eq!(o, ProbeOutcome::Kcv("D5D44F".to_string())),
        ProbeStep::Send { .. } => panic!("settled"),
    }
    let (_, probe) = sent(thales_kcv("0123456789ABCDEF"));
    match probe.resume(Ok(bv(b"68", b""))) {
        ProbeStep::Done(o) => assert_eq!(o, ProbeOutcome::CommandDisabled),
        ProbeStep::Send { .. } => panic!("refused"),
    }
    let (_, probe) = sent(thales_kcv("0123456789ABCDEF"));
    match probe.resume(Err("no route".to_string())) {
        ProbeStep::Done(o) => assert_eq!(o, ProbeOutcome::Unreachable("no route".to_string())),
        ProbeStep::Send { .. } => panic!("out of reach"),
    }
    match thales_kcv("MY_LABEL") {
        ProbeStep::Done(o) => assert_eq!(o, ProbeOutcome::UnsupportedForm),
        ProbeStep::Send { .. } => panic!("no key form"),
    }
}

#[test]
fn unreadable_answers_say_why() {
    assert!(matches!(
        parse_bv(b"\x00\x01x"),
        BvParse::Malformed(w) if w == "not a complete Thales frame (3 bytes)"
    ));
    assert!(matches!(
        parse_bv(&bv(b"00", b"12\"4")),
        BvParse::Malformed(w) if w == "KCV field not 6/16 hex digits: \"12\\\"4\""
    ));
    let other = ThalesPayShield.frame_response(*b"PB", b"XY", b"00", b"");
    assert!(matches!(
        parse_bv(&other),
        BvParse::Malformed(w) if w == "expected response code BV, got \"XY\""
    ));
    let header = ThalesPayShield.frame_response(*b"QQ", b"BV", b"00", b"D5D44F");
    assert!(matches!(
        parse_bv(&header),
        BvParse::Malformed(w) if w == "response header does not echo probe header"
    ));
}

#[test]
fn the_hsm_is_asked_of_usable_keys_only() {
    let mut report = Report::new();
    let mut probe = HsmKcvProbe::from_config("thales_payshield", Some(("hsm", 1500)), &mut report);
    assert!(probe.wants(&usable()));
    assert!(!probe.wants(&KeyCheck::NotFound));
    assert!(!probe.wants(&KeyCheck::Disabled));
    probe.stop("enough", &mut report);
    assert!(!probe.wants(&usable()));
}

#[test]
fn one_bad_mapping_fails_the_run() {
    for bad in 0..3 {
        let mut report = Report::new();
        let mut probe = HsmKcvProbe::from_config("thales_payshield", None, &mut report);
        for at in 0..3 {
            let check = if at == bad { KeyCheck::Disabled } else { usable() };
            judge("L", "alias/k", &check, None, &mut probe, &mut report);
        }
        assert_eq!(report.errors.len(), 1);
        assert!(!report.is_clean());
    }
    let mut report = Report::new();
    let mut probe = HsmKcvProbe::from_config("thales_payshield", None, &mut report);
    for _ in 0..3 {
        judge("L", "alias/k", &usable(), None, &mut probe, &mut report);
    }
    assert!(report.is_clean());
}
