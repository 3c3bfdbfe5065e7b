//! Vendor modules: all that is needed to serve one kind of HSM.

use vstd::prelude::*;

use crate::handlers::Handler;
use crate::protocol::Protocol;

verus! {

/// The name by which a configuration selects a vendor, its framing, and the
/// handlers of its commands.
pub trait VendorModule {
    type Commands: Handler;

    type Framing: Protocol;

    /// The name of the vendor in a configuration.
    spec fn name(&self) -> Seq<char>;

    /// The framing.
    spec fn framing(&self) -> Self::Framing;

    /// The handlers, in the order in which they are registered.
    spec fn listed(&self) -> Seq<Self::Commands>;

    /// The name of the vendor in a configuration.
    fn vendor(&self) -> (r: &'static str)
        ensures
            r@ == self.name(),
    ;

    /// The framing.
    fn protocol(&self) -> (r: Self::Framing)
        ensures
            r == self.framing(),
    ;

    /// The handlers, in the order in which they are registered.
    fn handlers(&self) -> (r: Vec<Self::Commands>)
        ensures
            r@ == self.listed(),
    ;
}

} // verus!
