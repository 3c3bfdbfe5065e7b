//! GA, CE: the Diebold PIN method, which is not offered.

use vstd::prelude::*;
use vstd::string::*;

use crate::error::ProxyError;
#[allow(unused_imports)]
use crate::handlers;
use crate::handlers::evidence;
use crate::handlers::grounding::{CryptoGrounding, Evidence, Proof, WireGrounding};
use crate::handlers::{fail, Handler, Step, StepView};
use crate::key_map::{KeyMap, KeyTable};
#[allow(unused_imports)]
use crate::text;
use crate::text::lossy;

verus! {

/// payShield GA (derive a PIN) and CE (generate an offset) by the Diebold method. It
/// needs a conversion table in the storage of the HSM, so both are answered as
/// disabled.
pub struct DieboldPinHandler;

impl Handler for DieboldPinHandler {
    open spec fn codes(&self) -> Seq<Seq<char>> {
        seq!["CE"@, "GA"@]
    }

    open spec fn step(&self, command_code: Seq<u8>, payload: Seq<u8>, keys: KeyTable) -> StepView {
        handlers::failed(
            ProxyError::Unsupported(
                text::lossy_text(command_code) + ": the Diebold PIN method relies on an HSM user-storage conversion table that AWS Payment Cryptography cannot replicate; re-issue affected PINs under IBM 3624 or Visa PVV"@,
            ),
        )
    }

    open spec fn evidence(&self) -> Seq<Evidence> {
        seq![
            Evidence {
                decision: evidence::DIEBOLD_PIN_1_DECISION,
                because: evidence::DIEBOLD_PIN_1_BECAUSE,
                wire: WireGrounding::Ungrounded,
                crypto: CryptoGrounding::Ungrounded,
                proof: Proof::Gated(evidence::DIEBOLD_PIN_1_PROOF),
            },
        ]
    }

    fn command_codes(&self) -> Vec<&'static str> {
        let r: Vec<&'static str> = vec!["CE", "GA"];
        assert(text::texts(r@) =~= self.codes());
        r
    }

    fn start(&self, command_code: &[u8], payload: &[u8], keys: &KeyMap) -> Step {
        fail(
            &ProxyError::Unsupported(
                lossy(command_code).concat(
                    ": the Diebold PIN method relies on an HSM user-storage conversion table that AWS Payment Cryptography cannot replicate; re-issue affected PINs under IBM 3624 or Visa PVV",
                ),
            ),
        )
    }

    fn grounding(&self) -> Vec<Evidence> {
        let r: Vec<Evidence> = vec![
            Evidence {
                decision: evidence::DIEBOLD_PIN_1_DECISION,
                because: evidence::DIEBOLD_PIN_1_BECAUSE,
                wire: WireGrounding::Ungrounded,
                crypto: CryptoGrounding::Ungrounded,
                proof: Proof::Gated(evidence::DIEBOLD_PIN_1_PROOF),
            },
        ];
        assert(r@ =~= self.evidence());
        r
    }
}

} // verus!
