//! Futurex Excrypt commands.

pub mod echo;

use vstd::prelude::*;

use crate::handlers::futurex::echo::EchoHandler;
use crate::protocol::futurex::FuturexExcrypt;
use crate::vendor::VendorModule;

verus! {

/// Futurex Excrypt: its framing and its handlers.
pub struct FuturexModule;

impl VendorModule for FuturexModule {
    type Commands = EchoHandler;

    type Framing = FuturexExcrypt;

    open spec fn name(&self) -> Seq<char> {
        "futurex_excrypt"@
    }

    open spec fn framing(&self) -> FuturexExcrypt {
        FuturexExcrypt
    }

    open spec fn listed(&self) -> Seq<EchoHandler> {
        seq![EchoHandler]
    }

    fn vendor(&self) -> &'static str {
        "futurex_excrypt"
    }

    fn protocol(&self) -> FuturexExcrypt {
        FuturexExcrypt
    }

    fn handlers(&self) -> Vec<EchoHandler> {
        let r: Vec<EchoHandler> = vec![EchoHandler];
        assert(r@ =~= self.listed());
        r
    }
}

} // verus!
