use vstd::prelude::*;
use rand::Rng;

verus! {

/// Draws a number from `lo..hi` with `rand::thread_rng().gen_range(lo..hi)`.
/// `gen_range` panics on an empty range, hence `lo < hi`; the contract promises only
/// that the number lies in the range, since the draw depends on the generator's state.
#[verifier::external_body]
pub(crate) fn random_range(lo: usize, hi: usize) -> (r: usize)
    requires
        lo < hi,
    ensures
        lo <= r < hi,
{
    rand::thread_rng().gen_range(lo..hi)
}

} // verus!
