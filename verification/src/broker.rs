//! The peer-communication capability consumed by distributed store
//! variants. This core contracts nothing of a broker beyond a diagnostic
//! name; shard resolution and replica fan-out are forward extension points.

use vstd::prelude::*;
use vstd::string::*;

verus! {

/// An external peer-communication capability. A no-op broker is a valid
/// substitute for single-node operation.
pub trait Broker: Sized {
    /// The broker's diagnostic name.
    spec fn broker_name(&self) -> Seq<char>;

    /// Reports the broker's diagnostic name.
    fn name(&self) -> (s: String)
        ensures
            s@ == self.broker_name(),
    ;
}

/// The no-op broker for single-node operation.
pub struct NoBroker {}

impl Broker for NoBroker {
    open spec fn broker_name(&self) -> Seq<char> {
        "No Broker"@
    }

    fn name(&self) -> (s: String) {
        String::from_str("No Broker")
    }
}

} // verus!
