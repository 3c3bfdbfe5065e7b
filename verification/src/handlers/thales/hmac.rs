//! LQ, LS: HMAC commands, which are not offered.

use vstd::prelude::*;
use vstd::string::*;

use crate::error::ProxyError;
#[allow(unused_imports)]
use crate::handlers;
use crate::handlers::evidence;
use crate::handlers::grounding::{CryptoGrounding, Evidence, Proof, WireGrounding};
use crate::handlers::{fail, Handler, Step, StepView};
use crate::key_map::{KeyMap, KeyTable};
#[allow(unused_imports)]
use crate::text;
use crate::text::lossy;

verus! {

/// payShield LQ (generate an HMAC) and LS (verify one): answered as disabled until
/// their layout has been validated against APC.
pub struct HmacHandler;

impl Handler for HmacHandler {
    open spec fn codes(&self) -> Seq<Seq<char>> {
        seq!["LQ"@, "LS"@]
    }

    open spec fn step(&self, command_code: Seq<u8>, payload: Seq<u8>, keys: KeyTable) -> StepView {
        handlers::failed(
            ProxyError::Unsupported(
                text::lossy_text(command_code) + ": HMAC generate/verify is supported by APC (generate_mac/verify_mac) but the LQ/LS wire format (2N hash id, byte-length HMAC truncation, length-prefixed inline key, raw-byte message) must be validated against APC before it can be proxied"@,
            ),
        )
    }

    open spec fn evidence(&self) -> Seq<Evidence> {
        seq![
            Evidence {
                decision: evidence::HMAC_1_DECISION,
                because: evidence::HMAC_1_BECAUSE,
                wire: WireGrounding::Ungrounded,
                crypto: CryptoGrounding::Ungrounded,
                proof: Proof::Gated(evidence::HMAC_1_PROOF),
            },
        ]
    }

    fn command_codes(&self) -> Vec<&'static str> {
        let r: Vec<&'static str> = vec!["LQ", "LS"];
        assert(text::texts(r@) =~= self.codes());
        r
    }

    fn start(&self, command_code: &[u8], payload: &[u8], keys: &KeyMap) -> Step {
        fail(
            &ProxyError::Unsupported(
                lossy(command_code).concat(
                    ": HMAC generate/verify is supported by APC (generate_mac/verify_mac) but the LQ/LS wire format (2N hash id, byte-length HMAC truncation, length-prefixed inline key, raw-byte message) must be validated against APC before it can be proxied",
                ),
            ),
        )
    }

    fn grounding(&self) -> Vec<Evidence> {
        let r: Vec<Evidence> = vec![
            Evidence {
                decision: evidence::HMAC_1_DECISION,
                because: evidence::HMAC_1_BECAUSE,
                wire: WireGrounding::Ungrounded,
                crypto: CryptoGrounding::Ungrounded,
                proof: Proof::Gated(evidence::HMAC_1_PROOF),
            },
        ];
        assert(r@ =~= self.evidence());
        r
    }
}

} // verus!
