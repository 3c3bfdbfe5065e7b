//! The KCV probe.

use apc_proxy::hsm_probe::{bu_candidates, kcv_matches, parse_bv, BvParse};
use apc_proxy::protocol::thales::ThalesPayShield;
use apc_proxy::protocol::Protocol;

/// A `BV` reply as the HSM would frame it.
fn bv_response(error: &[u8], kcv: &[u8]) -> Vec<u8> {
    ThalesPayShield.frame_response(*b"PB", b"BV", error, kcv)
}

#[test]
fn keyblock_form_single_candidate() {
    let c = bu_candidates("SD0016P0TE00N0000ABCD").expect("key block probeable");
    assert_eq!(c.len(), 1);
    assert!(c[0].starts_with("FFFS"));
    assert!(c[0].ends_with(";FFF;001"));
}

#[test]
fn variant_forms_iterate_documented_types() {
    for (form, flag) in [
        ("0123456789ABCDEF", '0'),
        ("U0123456789ABCDEF0123456789ABCDEF", '1'),
        ("T0123456789ABCDEF0123456789ABCDEF0123456789ABCDEF", '2'),
    ] {
        let c = bu_candidates(form).expect("variant form probeable");
        assert_eq!(c.len(), 4);
        for cand in &c {
            assert_eq!(cand.as_bytes()[2] as char, flag);
            assert!(cand.ends_with(";001"));
        }
    }
}

#[test]
fn non_key_forms_are_unsupported() {
    for form in [
        "arn:aws:payment-cryptography:us-east-1:0:key/abc",
        "alias/foo",
        "MY_LABEL",
        "0123",              // too short
        "0123456789ABCDEG",  // not hex
        "U0123456789ABCDEF", // U with single-length body
        "",
    ] {
        assert!(
            bu_candidates(form).is_none(),
            "{form:?} should be unsupported"
        );
    }
}

#[test]
fn parse_bv_happy_and_error_paths() {
    let ok = bv_response(b"00", b"D5D44F");
    assert!(matches!(parse_bv(&ok), BvParse::Kcv(k) if k == "D5D44F"));

    let parity = bv_response(b"10", b"");
    assert!(matches!(parse_bv(&parity), BvParse::Error(c) if c == "10"));

    let sixteen = bv_response(b"00", b"D5D44F0000000000");
    assert!(matches!(parse_bv(&sixteen), BvParse::Kcv(k) if k.len() == 16));

    assert!(matches!(parse_bv(b"\x00\x01x"), BvParse::Malformed(_)));
}

#[test]
fn kcv_match_semantics() {
    assert!(kcv_matches("d5d44f", "D5D44F"));
    assert!(kcv_matches("D5D44F", "D5D44F0000000000")); // 16-digit HSM reply
    assert!(!kcv_matches("D5D44F", "B12345"));
    assert!(!kcv_matches("", "D5D44F"));
}
