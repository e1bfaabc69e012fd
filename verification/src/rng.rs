//! The engine's one source of randomness.

use vstd::prelude::*;

verus! {

/// Relies on rand::random_range: a draw from the thread-local
/// generator, uniform over the given half-open range, which panics
/// only on an empty range.  Nothing can be promised about which
/// value comes back beyond its bounds.
#[verifier::external_body]
pub(crate) fn random_below(bound: u64) -> (r: u64)
    requires
        bound > 0,
    ensures
        r < bound,
{
    rand::random_range(0..bound)
}

} // verus!
