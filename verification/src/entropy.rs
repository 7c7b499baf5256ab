//! The one place the market touches entropy: a uniform draw from a
//! half-open range. Every decision made from a draw is taken by a verified
//! function that receives the drawn value as an argument and is therefore
//! verified for every value the range admits.

use vstd::prelude::*;
use rand::Rng;

verus! {

/// Relies on rand's `Rng::gen_range` with the range `lo..hi`: it returns a
/// value of the range and panics only when the range is empty, which the
/// precondition rules out. Nothing more is assumed of the outcome.
#[verifier::external_body]
pub fn draw_range(lo: u64, hi: u64) -> (r: u64)
    requires
        lo < hi,
    ensures
        lo <= r < hi,
{
    rand::thread_rng().gen_range(lo..hi)
}

} // verus!
