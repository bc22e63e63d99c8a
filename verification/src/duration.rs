//! Spans of time built from whole seconds or milliseconds, and the system clock.
use vstd::prelude::*;
use std::time::{Duration, SystemTime, UNIX_EPOCH};

verus! {

/// The duration of a whole number of seconds, as `Duration::from_secs` builds it.
pub uninterp spec fn duration_of_secs(secs: u64) -> Duration;

/// The duration of a whole number of milliseconds, as `Duration::from_millis` builds it.
pub uninterp spec fn duration_of_millis(millis: u64) -> Duration;

/// The whole nanoseconds of a duration, as `Duration::as_nanos` counts them.
pub uninterp spec fn duration_nanos(d: Duration) -> u128;

/// Calls `Duration::from_secs`. Claims the result is the duration of that many
/// seconds, which depends on the argument alone.
#[verifier::external_body]
pub(crate) fn duration_from_secs(secs: u64) -> (d: Duration)
    ensures
        d == duration_of_secs(secs),
{
    Duration::from_secs(secs)
}

/// Calls `Duration::from_millis`. Claims the result is the duration of that many
/// milliseconds, which depends on the argument alone.
#[verifier::external_body]
pub(crate) fn duration_from_millis(millis: u64) -> (d: Duration)
    ensures
        d == duration_of_millis(millis),
{
    Duration::from_millis(millis)
}

/// Calls `Duration::as_nanos`. Claims the result is a function of the duration alone
/// and, as std documents the constructors and this method, that a duration of `s`
/// whole seconds holds `s * 10^9` nanoseconds and one of `m` milliseconds holds
/// `m * 10^6`.
#[verifier::external_body]
pub(crate) fn duration_as_nanos(d: Duration) -> (r: u128)
    ensures
        r == duration_nanos(d),
        forall|s: u64| d == #[trigger] duration_of_secs(s) ==> r == s * 1_000_000_000,
        forall|m: u64| d == #[trigger] duration_of_millis(m) ==> r == m * 1_000_000,
{
    d.as_nanos()
}

/// A point in time of the system clock.
#[verifier::external_type_specification]
#[verifier::external_body]
pub struct ExSystemTime(SystemTime);

/// Calls `SystemTime::now`. The clock is not a function of anything here, so nothing is
/// claimed of the result.
#[verifier::external_body]
fn system_now() -> SystemTime {
    SystemTime::now()
}

/// Calls `SystemTime::duration_since` with the Unix epoch, giving `None` for a time
/// before the epoch. Nothing is claimed of the span.
#[verifier::external_body]
fn since_unix_epoch(t: SystemTime) -> Option<Duration> {
    match t.duration_since(UNIX_EPOCH) {
        Ok(d) => Some(d),
        Err(_) => None,
    }
}

/// The clock's reading in nanoseconds since the Unix epoch; a clock before the epoch
/// reads as 0.
pub(crate) fn unix_now_nanos() -> u128 {
    match since_unix_epoch(system_now()) {
        Some(d) => duration_as_nanos(d),
        None => 0,
    }
}

/// `Clone` of `Duration`. Claims the copy equals the value copied: `Duration` is `Copy`
/// and its `Clone` is the derived field-by-field copy.
pub assume_specification [<Duration as Clone>::clone] (d: &Duration) -> (r: Duration)
    ensures
        r == *d,
;

} // verus!
