//! The wall clock and the monotonic clock.

use std::time::{Duration, Instant, SystemTimeError};
use vstd::prelude::*;

verus! {

/// `std::time::Instant`: a reading of the monotonic clock.
#[verifier::external_type_specification]
#[verifier::external_body]
pub struct ExInstant(std::time::Instant);

/// `std::time::SystemTimeError`: the wall clock stands before the epoch.
#[verifier::external_type_specification]
#[verifier::external_body]
pub struct ExSystemTimeError(std::time::SystemTimeError);

/// `Instant::now` reads the monotonic clock. Nothing is known of the reading.
pub assume_specification[ std::time::Instant::now ]() -> Instant;

/// `SystemTime::elapsed` of the Unix epoch: the time since the epoch, or an
/// error if the wall clock stands before it. Nothing is known of the reading.
#[verifier::external_body]
fn since_epoch() -> (r: Result<Duration, SystemTimeError>) {
    std::time::UNIX_EPOCH.elapsed()
}

/// The whole seconds of a duration.
pub uninterp spec fn whole_secs(d: Duration) -> u64;

/// `Duration::as_secs` gives the whole seconds of a duration.
pub assume_specification[ std::time::Duration::as_secs ](d: &Duration) -> (r: u64)
    ensures
        r == whole_secs(*d),
;

/// The Unix time that a reading of the wall clock gives: the seconds since the
/// epoch, or 0 if the clock stands before it.
pub fn unix_time(since_epoch: Option<u64>) -> (r: i64)
    ensures
        r == (match since_epoch {
            Some(secs) => secs as i64,
            None => 0,
        }),
{
    match since_epoch {
        Some(secs) => secs as i64,
        None => 0,
    }
}

/// Seconds since the Unix epoch; 0 if the wall clock stands before it. Nothing
/// is known of the reading.
pub(crate) fn unix_now() -> (r: i64) {
    match since_epoch() {
        Ok(d) => unix_time(Some(d.as_secs())),
        Err(_) => unix_time(None),
    }
}

/// The time from one reading of the monotonic clock to another.
pub uninterp spec fn span(from: Instant, to: Instant) -> Duration;

/// `Instant::saturating_duration_since` gives the time from one reading to
/// another.
pub assume_specification[ std::time::Instant::saturating_duration_since ](
    to: &Instant,
    from: Instant,
) -> (r: Duration)
    ensures
        r == span(from, *to),
;

/// The whole milliseconds of a duration.
pub uninterp spec fn whole_millis(d: Duration) -> u128;

/// `Duration::as_millis` gives the whole milliseconds of a duration.
pub assume_specification[ std::time::Duration::as_millis ](d: &Duration) -> (r: u128)
    ensures
        r == whole_millis(*d),
;

/// Whole seconds from one reading of the monotonic clock to another.
pub open spec fn secs_between(from: Instant, to: Instant) -> u64 {
    whole_secs(span(from, to))
}

/// Whole milliseconds from one reading of the monotonic clock to another.
pub open spec fn millis_between(from: Instant, to: Instant) -> u64 {
    whole_millis(span(from, to)) as u64
}

/// Whole seconds from one reading of the monotonic clock to another.
pub(crate) fn secs_from(from: &Instant, to: &Instant) -> (r: u64)
    ensures
        r == secs_between(*from, *to),
{
    to.saturating_duration_since(*from).as_secs()
}

/// Whole milliseconds from one reading of the monotonic clock to another.
pub(crate) fn millis_from(from: &Instant, to: &Instant) -> (r: u64)
    ensures
        r == millis_between(*from, *to),
{
    to.saturating_duration_since(*from).as_millis() as u64
}

/// Whole seconds since a reading of the monotonic clock. Nothing is known of
/// the time at which the clock is read again.
pub(crate) fn secs_since(i: &Instant) -> (r: u64)
    ensures
        exists|now: Instant| r == #[trigger] secs_between(*i, now),
{
    secs_from(i, &Instant::now())
}

/// Milliseconds since a reading of the monotonic clock. Nothing is known of
/// the time at which the clock is read again.
pub(crate) fn millis_since(i: &Instant) -> (r: u64)
    ensures
        exists|now: Instant| r == #[trigger] millis_between(*i, now),
{
    millis_from(i, &Instant::now())
}

} // verus!
