//! The shape draw: the one place the engine consumes external randomness.

use vstd::prelude::*;

verus! {

use rand::Rng;

/// Relies on `rand::thread_rng` and `rand::Rng::gen_range` over `0..7`:
/// the sample lies in the requested range, and the range is not empty, so
/// the call does not panic.  Nothing more is assumed of a random draw.
#[verifier::external_body]
pub(crate) fn random_shape_index() -> (r: usize)
    ensures
        r < 7,
{
    rand::thread_rng().gen_range(0..7)
}

} // verus!
