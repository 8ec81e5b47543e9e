//! Resolver stages and their composition.
//!
//! A resolver maps a `(name, port)` request to an optional destination
//! address. The pipeline composes the configured stages in a fixed order —
//! fallback, filter, constant, rewrite, dns — over a void leaf that resolves
//! nothing.

pub mod constant;
pub mod dns;
pub mod fallback;
pub mod filter;
pub mod pipeline;
pub mod rewrite;
pub mod void;

use rand::Rng;
use vstd::prelude::*;

verus! {

/// Relies on rand's `thread_rng`: draws an index below `n`. Any index may
/// come back; nothing beyond the bound is promised.
#[verifier::external_body]
pub(crate) fn random_below(n: usize) -> (r: usize)
    requires
        0 < n,
    ensures
        r < n,
{
    rand::thread_rng().gen_range(0..n)
}

} // verus!
