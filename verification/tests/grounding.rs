//! The grounding report.

use apc_proxy::handlers::grounding::{
    format_report, CryptoGrounding, Entry, Evidence, Proof, WireGrounding,
};
use apc_proxy::handlers::registry::Registry;

#[test]
fn labels_of_the_report() {
    assert_eq!(WireGrounding::VecThru.label(), "vec-thru");
    assert_eq!(WireGrounding::DiffXprov.label(), "diff-xprov");
    assert_eq!(WireGrounding::Cited.label(), "cited");
    assert_eq!(WireGrounding::Ungrounded.label(), "none");
    assert_eq!(CryptoGrounding::Vec.label(), "vec");
    assert_eq!(CryptoGrounding::TwoImpl.label(), "2impl");
    assert_eq!(CryptoGrounding::Apc.label(), "apc");
    assert_eq!(CryptoGrounding::Ungrounded.label(), "none");
    assert_eq!(Proof::LiveTest("t").label(), "live test `t`");
    assert_eq!(Proof::ManualCite("p.1").label(), "manual: p.1");
    assert_eq!(Proof::Gated("why").label(), "gated (68): why");
    assert_eq!(Proof::LiveTest("t").live_test(), Some("t"));
    assert_eq!(Proof::Gated("t").live_test(), None);
}

#[test]
fn a_report_lists_evidence_and_gaps() {
    let entries = vec![
        Entry {
            codes: vec!["AA", "BB"],
            evidence: vec![Evidence {
                decision: "D",
                because: "B",
                wire: WireGrounding::Cited,
                crypto: CryptoGrounding::Apc,
                proof: Proof::ManualCite("p.1"),
            }],
        },
        Entry { codes: vec!["CC"], evidence: Vec::new() },
    ];
    let report = format_report(&entries);
    assert!(report.contains("**Coverage:** 1 of 2 handlers carry grounding; 1 not yet grounded"));
    assert!(report.contains(
        "## `AA`, `BB`\n\n- **D**\n  - wire `cited` · crypto `apc` · manual: p.1\n  - B\n\n"
    ));
    assert!(report.ends_with("- `CC`\n"));
}

#[test]
fn grounding_report_is_current() {
    let registry = Registry::build();
    let entries = registry.grounding_entries();
    let report = registry.grounding_report();
    assert_eq!(report, format_report(&entries));
    for e in &entries {
        assert!(report.contains(&format!("`{}`", e.codes.join("`, `"))));
        for x in &e.evidence {
            assert!(report.contains(x.decision));
            assert!(report.contains(x.because));
            assert!(!x.decision.contains('\n'));
            assert!(!x.because.contains('\n'));
        }
    }
}
