//! B2: the heartbeat.

use vstd::prelude::*;

#[allow(unused_imports)]
use crate::handlers;
use crate::handlers::evidence;
use crate::handlers::grounding::{CryptoGrounding, Evidence, Proof, WireGrounding};
use crate::handlers::{Handler, HandlerResult, Step, StepView};
use crate::key_map::{KeyMap, KeyTable};
#[allow(unused_imports)]
use crate::text;

verus! {

/// payShield B2: success without a payload.
pub struct HeartbeatHandler;

impl Handler for HeartbeatHandler {
    open spec fn codes(&self) -> Seq<Seq<char>> {
        seq!["B2"@]
    }

    open spec fn step(&self, command_code: Seq<u8>, payload: Seq<u8>, keys: KeyTable) -> StepView {
        Step::Done(handlers::answered(Seq::empty()))
    }

    open spec fn evidence(&self) -> Seq<Evidence> {
        seq![
            Evidence {
                decision: evidence::HEARTBEAT_1_DECISION,
                because: evidence::HEARTBEAT_1_BECAUSE,
                wire: WireGrounding::Cited,
                crypto: CryptoGrounding::Ungrounded,
                proof: Proof::ManualCite(evidence::HEARTBEAT_1_PROOF),
            },
        ]
    }

    fn command_codes(&self) -> Vec<&'static str> {
        let r: Vec<&'static str> = vec!["B2"];
        assert(text::texts(r@) =~= self.codes());
        r
    }

    fn start(&self, command_code: &[u8], payload: &[u8], keys: &KeyMap) -> Step {
        Step::Done(HandlerResult::success(Vec::new()))
    }

    fn grounding(&self) -> Vec<Evidence> {
        let r: Vec<Evidence> = vec![
            Evidence {
                decision: evidence::HEARTBEAT_1_DECISION,
                because: evidence::HEARTBEAT_1_BECAUSE,
                wire: WireGrounding::Cited,
                crypto: CryptoGrounding::Ungrounded,
                proof: Proof::ManualCite(evidence::HEARTBEAT_1_PROOF),
            },
        ];
        assert(r@ =~= self.evidence());
        r
    }
}

} // verus!
