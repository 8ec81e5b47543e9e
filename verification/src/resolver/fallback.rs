//! The fallback stage: when everything inside resolved nothing — or failed —
//! the configured default address is the answer.

use vstd::prelude::*;

use crate::net::SocketAddress;

verus! {

/// Holds the default destination a pipeline falls back to.
pub struct Layer(pub SocketAddress);

impl Layer {
    /// Remembers the default destination.
    pub fn new(default: SocketAddress) -> (r: Layer)
        ensures
            r.0 == default,
    {
        Layer(default)
    }
}

/// Applies the fallback rule to what the inner stages answered.
pub struct Fallback {
    default: SocketAddress,
}

impl Fallback {
    /// The default destination this fallback supplies.
    pub closed spec fn default_spec(&self) -> SocketAddress {
        self.default
    }

    /// Remembers the default destination.
    pub fn new(default: SocketAddress) -> (r: Fallback)
        ensures
            r.default_spec() == default,
    {
        Fallback { default }
    }

    /// What the fallback makes of an inner answer: an inner destination is
    /// kept; no answer becomes the default — unless the default itself
    /// carries port zero, which is never produced.
    pub open spec fn absorb_spec(&self, inner: Option<SocketAddress>) -> Option<SocketAddress> {
        match inner {
            Some(d) => Some(d),
            None => if self.default_spec().port != 0 {
                Some(self.default_spec())
            } else {
                None
            },
        }
    }

    /// Keeps an inner answer and turns no answer into the default.
    pub fn absorb(&self, inner: Option<SocketAddress>) -> (r: Option<SocketAddress>)
        ensures
            r == self.absorb_spec(inner),
    {
        match inner {
            Some(d) => Some(d),
            None => {
                if self.default.port != 0 {
                    Some(self.default)
                } else {
                    None
                }
            },
        }
    }
}

} // verus!
