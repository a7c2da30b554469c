//! The source of randomness.

use vstd::prelude::*;
use rand::Rng;

verus! {

/// A uniformly drawn integer in `lo ..= hi`.
///
/// Relies on `rand::thread_rng` and `rand::Rng::gen_range` over an
/// inclusive range, which returns a value inside the range. `gen_range`
/// panics on an empty range, which `lo <= hi` rules out; `thread_rng`
/// panics only when the operating system's random source cannot seed it.
#[verifier::external_body]
pub(crate) fn random_in(lo: u32, hi: u32) -> (r: u32)
    requires
        lo <= hi,
    ensures
        lo <= r <= hi,
{
    rand::thread_rng().gen_range(lo..=hi)
}

} // verus!
