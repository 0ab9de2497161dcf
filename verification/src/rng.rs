//! The one place where the simulation touches a source of randomness.

use rand::Rng;
use vstd::prelude::*;

verus! {

/// Relies on `rand::Rng::gen_range` over the half-open `i64` range
/// `lo..hi`: it panics only on an empty range and returns a value drawn
/// from `[lo, hi)`.
#[verifier::external_body]
pub(crate) fn rand_range(lo: i64, hi: i64) -> (r: i64)
    requires
        lo < hi,
    ensures
        lo <= r < hi,
{
    rand::thread_rng().gen_range(lo..hi)
}

} // verus!
