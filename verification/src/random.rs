//! Random numbers, drawn from the generator of the current thread.

use rand::Rng;
use vstd::prelude::*;

verus! {

/// Calls `rand::Rng::gen_range` on `rand::thread_rng()` with the half-open
/// range `low..high`. The range must not be empty, or the call panics. The
/// result lies in the range; nothing else is known of it.
#[verifier::external_body]
pub(crate) fn random_in_range(low: i64, high: i64) -> (r: i64)
    requires
        low < high,
    ensures
        low <= r < high,
{
    rand::thread_rng().gen_range(low..high)
}

/// Calls `rand::Rng::gen_ratio` on `rand::thread_rng()` with the ratio one
/// in two: a fair coin. Nothing is known of the result.
#[verifier::external_body]
pub(crate) fn random_flag() -> bool {
    rand::thread_rng().gen_ratio(1, 2)
}

} // verus!
