//! The one source of randomness.

use vstd::prelude::*;

verus! {

/// Draws thirty-two uniformly distributed bits from the thread-local
/// generator of the `rand` crate, by `rand::random`. Read as a fraction of
/// two to the thirty-second power, the result is a uniform draw from the
/// half-open unit interval.
///
/// Nothing is claimed of the value that comes back: two calls may differ,
/// and callers are verified for every value. The generator panics where the
/// operating system cannot seed it; nothing here rules that out.
#[verifier::external_body]
pub(crate) fn uniform() -> (draw: u32) {
    rand::random::<u32>()
}

} // verus!
