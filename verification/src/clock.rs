//! Wall-clock readings and spans of time.

use vstd::prelude::*;
use std::time::Duration;

verus! {

/// `SystemTime::now().duration_since(UNIX_EPOCH)` in whole seconds
/// (`Duration::as_secs`); `None` where the clock stands before the epoch.
/// Nothing is claimed of the reading.
#[verifier::external_body]
pub(crate) fn seconds_since_epoch() -> (r: Option<u64>)
{
    std::time::SystemTime::now().duration_since(std::time::UNIX_EPOCH).ok().map(|d| d.as_secs())
}

/// The sub-second part of `SystemTime::now().duration_since(UNIX_EPOCH)`
/// (`Duration::subsec_nanos`), which is below one billion; `None` where the
/// clock stands before the epoch.
#[verifier::external_body]
pub(crate) fn nanos_within_second() -> (r: Option<u32>)
    ensures
        r matches Some(n) ==> n < 1_000_000_000,
{
    std::time::SystemTime::now().duration_since(std::time::UNIX_EPOCH).ok().map(
        |d| d.subsec_nanos(),
    )
}

/// Seconds since the epoch, `0` where the clock stands before it. `seconds_or_zero`
/// says what is made of the reading; nothing is claimed of the reading itself.
pub fn now_secs() -> (r: u64)
{
    seconds_or_zero(seconds_since_epoch())
}

/// The seconds of a reading of the clock, `0` where the clock stands before the
/// epoch.
pub fn seconds_or_zero(reading: Option<u64>) -> (r: u64)
    ensures
        match reading {
            Some(secs) => r == secs,
            None => r == 0,
        },
{
    match reading {
        Some(secs) => secs,
        None => 0,
    }
}

/// The nanoseconds that `Duration::as_nanos` counts in a span of time.
pub uninterp spec fn duration_nanos(d: Duration) -> nat;

/// `Duration::from_millis` makes a span of the given number of milliseconds.
pub assume_specification[ Duration::from_millis ](millis: u64) -> (d: Duration)
    ensures
        duration_nanos(d) == millis * 1_000_000,
;

/// `Duration::as_millis` counts the whole milliseconds in a span.
pub assume_specification[ Duration::as_millis ](d: &Duration) -> (r: u128)
    ensures
        r == duration_nanos(*d) / 1_000_000,
;

/// Whether a number of nanoseconds makes a span: its whole seconds fit in 64 bits.
pub open spec fn fits_duration(nanos: nat) -> bool {
    nanos / 1_000_000_000 <= u64::MAX
}

/// `Duration::checked_add` is the sum of two spans, `None` where it is too long.
pub assume_specification[ Duration::checked_add ](a: Duration, b: Duration) -> (r: Option<Duration>)
    ensures
        match r {
            Some(d) => duration_nanos(d) == duration_nanos(a) + duration_nanos(b),
            None => !fits_duration(duration_nanos(a) + duration_nanos(b)),
        },
;

/// A moment of the monotonic clock.
#[verifier::external_type_specification]
#[verifier::external_body]
pub struct ExInstant(std::time::Instant);

/// `Instant::now` reads the monotonic clock. Nothing is claimed of the reading.
pub assume_specification[ std::time::Instant::now ]() -> std::time::Instant
;

/// `Instant::elapsed` is the time since a moment. Nothing is claimed of it.
pub assume_specification[ std::time::Instant::elapsed ](i: &std::time::Instant) -> Duration
;

} // verus!
