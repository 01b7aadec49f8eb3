//! The wall clock, as far as the game reads it, and the frame rate.

use vstd::prelude::*;

verus! {

/// `std::time::Instant`: a point in time, opaque to the proofs.
#[verifier::external_type_specification]
#[verifier::external_body]
pub struct ExInstant(std::time::Instant);

/// `std::time::Instant::now`: the current point in time. Nothing is known
/// of it.
pub assume_specification[ std::time::Instant::now ]() -> (now: std::time::Instant);

/// `std::time::Instant::elapsed`: the time that has passed since the
/// instant. Nothing is known of it.
pub assume_specification[ std::time::Instant::elapsed ](instant: &std::time::Instant) -> (elapsed:
    std::time::Duration);

/// `std::time::Duration::as_nanos`: the duration in whole nanoseconds.
/// Nothing is known of it.
pub assume_specification[ std::time::Duration::as_nanos ](duration: &std::time::Duration) -> (nanos:
    u128);

/// A count of nanoseconds as the game keeps it: as it is, or `u64::MAX` if
/// it is more than that.
pub open spec fn saturated_nanos_spec(nanos: int) -> int {
    if nanos > u64::MAX {
        u64::MAX as int
    } else {
        nanos
    }
}

/// A count of nanoseconds as the game keeps it: limited to `u64::MAX`,
/// which is more than five hundred years.
pub fn saturated_nanos(nanos: u128) -> (time: u64)
    ensures
        time == saturated_nanos_spec(nanos as int),
{
    if nanos > u64::MAX as u128 {
        u64::MAX
    } else {
        nanos as u64
    }
}

/// The frame rate when a frame takes `delta_millis` milliseconds: whole
/// frames per second, and zero when no time has passed.
pub open spec fn fps_spec(delta_millis: int) -> int {
    if delta_millis > 0 {
        1000int / delta_millis
    } else {
        0
    }
}

/// The frame rate when a frame takes `delta_millis` milliseconds.
pub fn frames_per_second(delta_millis: u128) -> (fps: u128)
    ensures
        fps == fps_spec(delta_millis as int),
{
    if delta_millis > 0 {
        1000 / delta_millis
    } else {
        0
    }
}

} // verus!
