//! QY, PM: dynamic card verification values, which are not offered.

use vstd::prelude::*;
use vstd::string::*;

use crate::error::ProxyError;
#[allow(unused_imports)]
use crate::handlers;
use crate::handlers::grounding::Evidence;
use crate::handlers::{fail, Handler, Step, StepView};
use crate::key_map::{KeyMap, KeyTable};
#[allow(unused_imports)]
use crate::text;
use crate::text::lossy;

verus! {

/// payShield QY (generate a dynamic CVV) and PM (verify one): they derive the key of
/// the card from an EMV master key, which APC cannot do for these commands, so both
/// are answered as disabled.
pub struct DynamicCvvHandler;

impl Handler for DynamicCvvHandler {
    open spec fn codes(&self) -> Seq<Seq<char>> {
        seq!["QY"@, "PM"@]
    }

    open spec fn step(&self, command_code: Seq<u8>, payload: Seq<u8>, keys: KeyTable) -> StepView {
        handlers::failed(
            ProxyError::Unsupported(
                text::lossy_text(command_code) + ": dynamic CVV (dCVV/dCVV2) derives a card-unique key from an EMV master key across multiple card schemes; AWS Payment Cryptography cannot reproduce the QY/PM operation as specified"@,
            ),
        )
    }

    open spec fn evidence(&self) -> Seq<Evidence> {
        Seq::empty()
    }

    fn command_codes(&self) -> Vec<&'static str> {
        let r: Vec<&'static str> = vec!["QY", "PM"];
        assert(text::texts(r@) =~= self.codes());
        r
    }

    fn start(&self, command_code: &[u8], payload: &[u8], keys: &KeyMap) -> Step {
        fail(
            &ProxyError::Unsupported(
                lossy(command_code).concat(
                    ": dynamic CVV (dCVV/dCVV2) derives a card-unique key from an EMV master key across multiple card schemes; AWS Payment Cryptography cannot reproduce the QY/PM operation as specified",
                ),
            ),
        )
    }

    fn grounding(&self) -> Vec<Evidence> {
        Vec::new()
    }
}

} // verus!
