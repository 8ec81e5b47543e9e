//! The void stage: the leaf every composition ends in. It resolves nothing.

use vstd::prelude::*;

use crate::net::SocketAddress;

verus! {

/// Leaf resolver that doesn't resolve anything; useful in combination with
/// the other stages.
pub struct Service;

impl Service {
    /// Answers every request with no destination.
    pub fn call(&self, _name: &[u8], _port: u16) -> (r: Option<SocketAddress>)
        ensures
            r is None,
    {
        None
    }
}

} // verus!
