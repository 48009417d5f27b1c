//! The two places where chance enters the library.

use rand::seq::SliceRandom;
use rand::Rng;
use vstd::prelude::*;

verus! {

/// Calls `rand::seq::SliceRandom::shuffle` on the vector with the thread-local
/// generator. Trusted: the shuffle only swaps elements of the slice, so the
/// vector afterwards holds the same values, each as often as before. Nothing
/// is claimed about the order.
#[verifier::external_body]
pub(crate) fn shuffle_indices(v: &mut Vec<usize>)
    ensures
        final(v)@.to_multiset() == old(v)@.to_multiset(),
{
    v.shuffle(&mut rand::thread_rng());
}

/// Calls `rand::Rng::gen_ratio` on the thread-local generator. Trusted: the
/// call panics unless `0 < denominator` and `numerator <= denominator`; it
/// always returns `false` for a zero numerator and always `true` when the
/// numerator equals the denominator. In between the result is left to chance.
#[verifier::external_body]
pub(crate) fn random_ratio(numerator: u32, denominator: u32) -> (hit: bool)
    requires
        denominator > 0,
        numerator <= denominator,
    ensures
        numerator == 0 ==> !hit,
        numerator == denominator ==> hit,
{
    rand::thread_rng().gen_ratio(numerator, denominator)
}

} // verus!
