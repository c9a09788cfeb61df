//! Draws from the thread-local random number generator.
use rand::Rng;
use vstd::prelude::*;

verus! {

/// Relies on `rand::Rng::gen_range` over an inclusive range of `i64`: the
/// value lies in `[lo, hi]`; the call panics on an empty range, which
/// `requires` leaves out.
#[verifier::external_body]
pub(crate) fn random_between(lo: i64, hi: i64) -> (r: i64)
    requires
        lo <= hi,
    ensures
        lo <= r <= hi,
{
    rand::thread_rng().gen_range(lo..=hi)
}

} // verus!
