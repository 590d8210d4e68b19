//! A monotonic clock that counts milliseconds from the moment it was
//! started.

use std::time::{Duration, Instant};
use vstd::prelude::*;

verus! {

/// `std::time::Instant`, a reading of the monotonic clock. Nothing is known
/// of what a value holds.
#[verifier::external_type_specification]
#[verifier::external_body]
pub struct ExInstant(Instant);

/// `Instant::now`: the present reading of the monotonic clock. Nothing is
/// claimed of the result.
pub assume_specification[ Instant::now ]() -> (now: Instant);

/// `Instant::saturating_duration_since`: the time from `earlier` to `later`,
/// or no time at all where `earlier` is the later of the two. It does not
/// panic. Nothing is claimed of the result.
pub assume_specification[ Instant::saturating_duration_since ](
    later: &Instant,
    earlier: Instant,
) -> (between: Duration);

/// `Duration::as_nanos`: the whole span in nanoseconds. Nothing is claimed of
/// the result.
pub assume_specification[ Duration::as_nanos ](span: &Duration) -> (nanos: u128);

/// The number of nanoseconds in a millisecond.
pub const NANOS_PER_MILLI: u128 = 1_000_000;

/// The whole milliseconds in `nanos` nanoseconds, or `u64::MAX` where they
/// are more than that.
pub open spec fn millis_of(nanos: u128) -> u64 {
    if nanos / NANOS_PER_MILLI <= u64::MAX {
        (nanos / NANOS_PER_MILLI) as u64
    } else {
        u64::MAX
    }
}

/// Turns a span in nanoseconds into whole milliseconds, rounding down, and
/// stops at `u64::MAX`.
pub fn nanos_to_millis(nanos: u128) -> (millis: u64)
    ensures
        millis == millis_of(nanos),
{
    let whole: u128 = nanos / NANOS_PER_MILLI;
    if whole <= u64::MAX as u128 {
        whole as u64
    } else {
        u64::MAX
    }
}

/// A clock that tells the time in milliseconds since it was started.
#[derive(Clone, Copy, Debug)]
pub struct Clock {
    origin: Instant,
}

impl Clock {
    /// Starts a clock at the present moment.
    pub fn start() -> Clock {
        Clock { origin: Instant::now() }
    }

    /// The milliseconds that have passed since the clock was started. What
    /// the clock reads is not known before it is read.
    pub fn now(&self) -> u64 {
        let present = Instant::now();
        let span = present.saturating_duration_since(self.origin);
        nanos_to_millis(span.as_nanos())
    }
}

} // verus!
