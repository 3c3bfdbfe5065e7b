//! Commands that have no equivalent.

use vstd::prelude::*;

#[allow(unused_imports)]
use crate::handlers;
use crate::handlers::evidence;
use crate::handlers::grounding::{CryptoGrounding, Evidence, Proof, WireGrounding};
use crate::handlers::{disable, Handler, Step, StepView};
use crate::key_map::{KeyMap, KeyTable};
#[allow(unused_imports)]
use crate::text;

verus! {

/// Commands that APC has no equivalent for, all answered as disabled: PIN commands
/// that need RSA, a clear PIN or the local master key; conversion of key blocks, RSA
/// signatures and hashes; key management; administration and diagnosis.
pub struct NotAvailableHandler;

impl Handler for NotAvailableHandler {
    open spec fn codes(&self) -> Seq<Seq<char>> {
        seq!["AQ"@, "BA"@, "BC"@, "BE"@, "BK"@, "CG"@, "DE"@, "DG"@, "EE"@, "EG"@, "FW"@, "JC"@, "JE"@, "JG"@, "LE"@, "LG"@, "LO"@, "NG"@, "EM"@, "EU"@, "EW"@, "EY"@, "GM"@, "A0"@, "A4"@, "A6"@, "A8"@, "AA"@, "AC"@, "AE"@, "AG"@, "AK"@, "AM"@, "AS"@, "AU"@, "AW"@, "BI"@, "B0"@, "B8"@, "BG"@, "BU"@, "BW"@, "BS"@, "BY"@, "CS"@, "DW"@, "DY"@, "FA"@, "FC"@, "FE"@, "FG"@, "FK"@, "GC"@, "GE"@, "GG"@, "GK"@, "GY"@, "HA"@, "HC"@, "HY"@, "IA"@, "J6"@, "J8"@, "JK"@, "K8"@, "KA"@, "KC"@, "KG"@, "KI"@, "L0"@, "LU"@, "LW"@, "MG"@, "MI"@, "N0"@, "NC"@, "NI"@, "NO"@, "Q0"@, "Q6"@, "Q8"@, "QH"@, "RA"@, "SE"@, "TG"@, "TY"@, "UI"@, "VW"@, "VY"@, "WC"@, "WQ"@, "WW"@, "WY"@]
    }

    open spec fn step(&self, command_code: Seq<u8>, payload: Seq<u8>, keys: KeyTable) -> StepView {
        handlers::disabled()
    }

    open spec fn evidence(&self) -> Seq<Evidence> {
        seq![
            Evidence {
                decision: evidence::NOOP_1_DECISION,
                because: evidence::NOOP_1_BECAUSE,
                wire: WireGrounding::Ungrounded,
                crypto: CryptoGrounding::Ungrounded,
                proof: Proof::Gated(evidence::NOOP_1_PROOF),
            },
            Evidence {
                decision: evidence::NOOP_2_DECISION,
                because: evidence::NOOP_2_BECAUSE,
                wire: WireGrounding::Ungrounded,
                crypto: CryptoGrounding::Ungrounded,
                proof: Proof::Gated(evidence::NOOP_2_PROOF),
            },
            Evidence {
                decision: evidence::NOOP_3_DECISION,
                because: evidence::NOOP_3_BECAUSE,
                wire: WireGrounding::Ungrounded,
                crypto: CryptoGrounding::Ungrounded,
                proof: Proof::Gated(evidence::NOOP_3_PROOF),
            },
            Evidence {
                decision: evidence::NOOP_4_DECISION,
                because: evidence::NOOP_4_BECAUSE,
                wire: WireGrounding::Ungrounded,
                crypto: CryptoGrounding::Ungrounded,
                proof: Proof::Gated(evidence::NOOP_4_PROOF),
            },
        ]
    }

    fn command_codes(&self) -> Vec<&'static str> {
        let r: Vec<&'static str> = vec!["AQ", "BA", "BC", "BE", "BK", "CG", "DE", "DG", "EE", "EG", "FW", "JC", "JE", "JG", "LE", "LG", "LO", "NG", "EM", "EU", "EW", "EY", "GM", "A0", "A4", "A6", "A8", "AA", "AC", "AE", "AG", "AK", "AM", "AS", "AU", "AW", "BI", "B0", "B8", "BG", "BU", "BW", "BS", "BY", "CS", "DW", "DY", "FA", "FC", "FE", "FG", "FK", "GC", "GE", "GG", "GK", "GY", "HA", "HC", "HY", "IA", "J6", "J8", "JK", "K8", "KA", "KC", "KG", "KI", "L0", "LU", "LW", "MG", "MI", "N0", "NC", "NI", "NO", "Q0", "Q6", "Q8", "QH", "RA", "SE", "TG", "TY", "UI", "VW", "VY", "WC", "WQ", "WW", "WY"];
        assert(text::texts(r@) =~= self.codes());
        r
    }

    fn start(&self, command_code: &[u8], payload: &[u8], keys: &KeyMap) -> Step {
        disable()
    }

    fn grounding(&self) -> Vec<Evidence> {
        let r: Vec<Evidence> = vec![
            Evidence {
                decision: evidence::NOOP_1_DECISION,
                because: evidence::NOOP_1_BECAUSE,
                wire: WireGrounding::Ungrounded,
                crypto: CryptoGrounding::Ungrounded,
                proof: Proof::Gated(evidence::NOOP_1_PROOF),
            },
            Evidence {
                decision: evidence::NOOP_2_DECISION,
                because: evidence::NOOP_2_BECAUSE,
                wire: WireGrounding::Ungrounded,
                crypto: CryptoGrounding::Ungrounded,
                proof: Proof::Gated(evidence::NOOP_2_PROOF),
            },
            Evidence {
                decision: evidence::NOOP_3_DECISION,
                because: evidence::NOOP_3_BECAUSE,
                wire: WireGrounding::Ungrounded,
                crypto: CryptoGrounding::Ungrounded,
                proof: Proof::Gated(evidence::NOOP_3_PROOF),
            },
            Evidence {
                decision: evidence::NOOP_4_DECISION,
                because: evidence::NOOP_4_BECAUSE,
                wire: WireGrounding::Ungrounded,
                crypto: CryptoGrounding::Ungrounded,
                proof: Proof::Gated(evidence::NOOP_4_PROOF),
            },
        ];
        assert(r@ =~= self.evidence());
        r
    }
}

} // verus!
