//! The clock by which the codecs time their work. What the clock shows is
//! its own matter; what is stated is how the readings are added up.
use std::time::{Duration, Instant};
use vstd::prelude::*;

verus! {

/// `std::time::Instant`: a reading of the monotonic clock.
#[verifier::external_type_specification]
#[verifier::external_body]
pub struct ExInstant(Instant);

/// The duration that `Duration::new` makes of `secs` whole seconds and
/// `nanos` nanoseconds.
pub uninterp spec fn duration_new(secs: u64, nanos: u32) -> Duration;

/// The length of a duration in nanoseconds, as `Duration::as_nanos` gives
/// it.
pub uninterp spec fn duration_nanos(d: Duration) -> nat;

/// The length of `Duration::MAX`, the longest duration, in nanoseconds:
/// `u64::MAX` seconds and one nanosecond less than one more.
pub open spec fn duration_max_nanos() -> nat {
    (u64::MAX * 1_000_000_000 + 999_999_999) as nat
}

/// `Instant::now`.
#[verifier::external_body]
pub(crate) fn clock_now() -> Instant {
    Instant::now()
}

/// `Instant::elapsed`.
#[verifier::external_body]
pub(crate) fn clock_elapsed(start: &Instant) -> Duration {
    start.elapsed()
}

/// `Duration::new(0, 0)`: no time at all.
#[verifier::external_body]
pub(crate) fn duration_zero() -> (d: Duration)
    ensures
        d == duration_new(0, 0),
        duration_nanos(d) == 0,
{
    Duration::new(0, 0)
}

/// `Duration::saturating_add`: the sum of the two, and `Duration::MAX`
/// where the sum would be longer than that.
#[verifier::external_body]
pub(crate) fn duration_sum(total: Duration, more: Duration) -> (sum: Duration)
    ensures
        duration_nanos(sum) == (if duration_nanos(total) + duration_nanos(more)
            <= duration_max_nanos() {
            duration_nanos(total) + duration_nanos(more)
        } else {
            duration_max_nanos()
        }),
{
    total.saturating_add(more)
}

} // verus!
