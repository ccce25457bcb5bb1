//! The clock: the current time and time spans, which the engine reads but
//! cannot predict.
use std::time::{Duration, Instant};
use vstd::prelude::*;
use crate::performance::{duration_nanos, duration_total_nanos, NANOS_PER_SEC};

verus! {

#[verifier::external_type_specification]
#[verifier::external_body]
pub struct ExInstant(Instant);

/// `Instant::now`: the current time. Nothing is claimed of it.
#[verifier::external_body]
pub(crate) fn now() -> Instant {
    Instant::now()
}

/// `Instant::elapsed`: the time passed since `t`. It depends on the clock;
/// nothing is claimed.
#[verifier::external_body]
pub(crate) fn elapsed(t: &Instant) -> Duration {
    t.elapsed()
}

/// `Duration::as_secs`: the whole seconds of a duration, that is its
/// nanoseconds divided by a billion, rounded down.
#[verifier::external_body]
pub(crate) fn duration_secs(d: Duration) -> (r: u64)
    ensures
        r == duration_nanos(d) / NANOS_PER_SEC,
{
    d.as_secs()
}

/// The whole seconds passed since `t`: those of the time span that the
/// clock reports, whatever span that is.
pub fn elapsed_secs(t: &Instant) -> (r: u64)
    ensures
        exists|passed: Duration| r == duration_nanos(passed) / NANOS_PER_SEC,
{
    let passed = elapsed(t);
    let r = duration_secs(passed);
    assert(r == duration_nanos(passed) / NANOS_PER_SEC);
    r
}

/// Whether at least `interval` has passed since `since`: the time span that
/// the clock reports is compared with `interval`, so a zero interval has
/// always passed.
pub fn has_elapsed(since: &Instant, interval: Duration) -> (r: bool)
    ensures
        exists|passed: Duration| r == (duration_nanos(passed) >= duration_nanos(interval)),
        duration_nanos(interval) == 0 ==> r,
{
    let d = elapsed(since);
    let passed = duration_total_nanos(d);
    let r = passed >= duration_total_nanos(interval);
    assert(r == (duration_nanos(d) >= duration_nanos(interval)));
    r
}

#[verifier::external_type_specification]
#[verifier::external_body]
pub struct ExSystemTime(std::time::SystemTime);

/// `SystemTime::now`: the current wall-clock time. Nothing is claimed of it.
#[verifier::external_body]
pub(crate) fn system_now() -> std::time::SystemTime {
    std::time::SystemTime::now()
}

/// `SystemTime::duration_since(UNIX_EPOCH)`: the time since the Unix epoch,
/// or nothing if `t` lies before it. Nothing is claimed of the value.
#[verifier::external_body]
pub(crate) fn since_epoch(t: &std::time::SystemTime) -> Option<Duration> {
    match t.duration_since(std::time::UNIX_EPOCH) {
        Ok(d) => Some(d),
        Err(_) => None,
    }
}

/// `Duration::as_millis`: the whole milliseconds of a duration.
#[verifier::external_body]
pub(crate) fn duration_millis(d: Duration) -> (r: u128)
    ensures
        r == duration_nanos(d) / 1_000_000,
{
    d.as_millis()
}

/// Milliseconds since the Unix epoch, or zero if the clock stands before it:
/// the whole milliseconds of the span since the epoch that the clock reports.
pub fn unix_millis() -> (r: u128)
    ensures
        r == 0 || exists|since: Duration| r == duration_nanos(since) / 1_000_000,
{
    match since_epoch(&system_now()) {
        Some(d) => {
            let r = duration_millis(d);
            assert(r == duration_nanos(d) / 1_000_000);
            r
        },
        None => 0,
    }
}

} // verus!
