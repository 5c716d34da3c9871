//! The monotonic clock, by which the time-budgeted policy measures chunks.
//!
//! Nothing is claimed of what the clock returns: whatever it says, only the
//! grouping of offsets into chunks depends on it.

use std::time::Duration;
use vstd::prelude::*;

verus! {

/// `std::time::Instant`, a point in time that is carried around unread.
#[verifier::external_type_specification]
#[verifier::external_body]
pub struct ExInstant(std::time::Instant);

/// `Instant::now`: reads the clock. Nothing is promised of the result.
pub assume_specification[ std::time::Instant::now ]() -> (now: std::time::Instant);

/// `Instant::elapsed`: the time since `start`. Nothing is promised of the
/// result.
pub assume_specification[ std::time::Instant::elapsed ](start: &std::time::Instant) -> (elapsed:
    Duration);

/// `Duration::as_nanos`: the duration in whole nanoseconds. Nothing is
/// promised of the result.
pub assume_specification[ std::time::Duration::as_nanos ](duration: &Duration) -> (nanos: u128);

/// Runs `body` and says how long it took. The first component is what
/// `body` returned.
pub fn timed<T>(body: impl FnOnce() -> T) -> (outcome: (T, Duration))
    requires
        call_requires(body, ()),
    ensures
        call_ensures(body, (), outcome.0),
{
    let start = std::time::Instant::now();
    let result = body();
    let time_taken = start.elapsed();
    (result, time_taken)
}

/// The whole nanoseconds of `duration`, or the largest `u64` if they do not
/// fit.
pub(crate) fn saturating_nanos(duration: &Duration) -> u64 {
    saturate(duration.as_nanos())
}

/// `nanos` as a `u64`: itself where it fits, and the largest `u64` where it
/// does not.
pub fn saturate(nanos: u128) -> (fitted: u64)
    ensures
        nanos <= u64::MAX ==> fitted == nanos,
        nanos > u64::MAX ==> fitted == u64::MAX,
{
    if nanos > u64::MAX as u128 {
        u64::MAX
    } else {
        nanos as u64
    }
}

} // verus!
