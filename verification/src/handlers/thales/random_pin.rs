//! JA: generate a random PIN, which is not offered.

use vstd::prelude::*;
use vstd::string::*;

use crate::error::ProxyError;
#[allow(unused_imports)]
use crate::handlers;
use crate::handlers::grounding::Evidence;
use crate::handlers::{fail, Handler, Step, StepView};
use crate::key_map::{KeyMap, KeyTable};
#[allow(unused_imports)]
use crate::text;
use crate::text::owned;

verus! {

/// payShield JA: its answer is a PIN under the local master key, which APC does not
/// have, so it is answered as disabled.
pub struct RandomPinHandler;

impl Handler for RandomPinHandler {
    open spec fn codes(&self) -> Seq<Seq<char>> {
        seq!["JA"@]
    }

    open spec fn step(&self, command_code: Seq<u8>, payload: Seq<u8>, keys: KeyTable) -> StepView {
        handlers::failed(
            ProxyError::Unsupported(
                "JA: Generate a Random PIN returns a PIN encrypted under the LMK; AWS Payment Cryptography has no LMK and cannot produce this output. Use generate_pin_data to issue PINs as ZPK-encrypted blocks with a verification value instead"@,
            ),
        )
    }

    open spec fn evidence(&self) -> Seq<Evidence> {
        Seq::empty()
    }

    fn command_codes(&self) -> Vec<&'static str> {
        let r: Vec<&'static str> = vec!["JA"];
        assert(text::texts(r@) =~= self.codes());
        r
    }

    fn start(&self, command_code: &[u8], payload: &[u8], keys: &KeyMap) -> Step {
        fail(
            &ProxyError::Unsupported(
                owned(
                    "JA: Generate a Random PIN returns a PIN encrypted under the LMK; AWS Payment Cryptography has no LMK and cannot produce this output. Use generate_pin_data to issue PINs as ZPK-encrypted blocks with a verification value instead",
                ),
            ),
        )
    }

    fn grounding(&self) -> Vec<Evidence> {
        Vec::new()
    }
}

} // verus!
