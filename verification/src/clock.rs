//! Clocks: monotonic instants, wall-clock milliseconds, and the local hour.
//!
//! Every reading here depends on when it is taken, so nothing is promised about
//! the values beyond their documented ranges.

use vstd::prelude::*;
use chrono::{TimeZone, Timelike};

verus! {

/// `std::time::Instant`, carried through the state machines as an opaque value.
#[verifier::external_type_specification]
#[verifier::external_body]
pub struct ExInstant(std::time::Instant);

/// `Instant` is `Copy`: its `clone` returns the same instant.
pub assume_specification[ <std::time::Instant as Clone>::clone ](i: &std::time::Instant) -> (r: std::time::Instant)
    ensures
        r == *i,
;

/// `Instant::now()`.
#[verifier::external_body]
pub(crate) fn instant_now() -> std::time::Instant {
    std::time::Instant::now()
}

/// `Instant::elapsed`: the time since `since`.
#[verifier::external_body]
fn instant_elapsed(since: &std::time::Instant) -> std::time::Duration {
    since.elapsed()
}

/// `Duration::as_nanos`: the whole nanoseconds of `d`. A `Duration` holds whole
/// seconds in a `u64` and fewer than a billion nanoseconds besides, which bounds
/// the result.
#[verifier::external_body]
fn duration_nanos(d: &std::time::Duration) -> (n: u128)
    ensures
        n <= u64::MAX as u128 * 1_000_000_000 + 999_999_999,
{
    d.as_nanos()
}

/// Nanoseconds elapsed since `since`.
pub(crate) fn elapsed_nanos(since: &std::time::Instant) -> (n: u128)
    ensures
        n <= u64::MAX as u128 * 1_000_000_000 + 999_999_999,
{
    let d = instant_elapsed(since);
    duration_nanos(&d)
}

/// Whole seconds elapsed since `since` (what `Duration::as_secs` gives for the elapsed time).
pub fn elapsed_secs(since: &std::time::Instant) -> u64 {
    let n = elapsed_nanos(since);
    (n / 1_000_000_000) as u64
}

/// `std::time::SystemTime`, a reading of the system clock.
#[verifier::external_type_specification]
#[verifier::external_body]
pub struct ExSystemTime(std::time::SystemTime);

/// `SystemTime::now()`.
#[verifier::external_body]
fn system_now() -> std::time::SystemTime {
    std::time::SystemTime::now()
}

/// `t.duration_since(UNIX_EPOCH)`: the time since the epoch, `None` (std's
/// error) when `t` is before it.
#[verifier::external_body]
fn since_epoch(t: &std::time::SystemTime) -> Option<std::time::Duration> {
    t.duration_since(std::time::UNIX_EPOCH).ok()
}

/// `Duration::as_millis`: the whole milliseconds of `d`.
#[verifier::external_body]
fn duration_millis(d: &std::time::Duration) -> u128 {
    d.as_millis()
}

/// Milliseconds since the Unix epoch by the system clock (`SystemTime::now`),
/// wrapped to 64 bits; zero when the clock reads before the epoch.
pub fn system_time_ms() -> i64 {
    let now = system_now();
    match since_epoch(&now) {
        Some(d) => {
            let ms = duration_millis(&d);
            #[verifier::truncate]
            (ms as i64)
        },
        None => 0,
    }
}

/// The first millisecond a chrono date-time can hold (the first day of the
/// year -262143), as milliseconds after the epoch.
pub const EARLIEST_LOCAL_MS: i64 = -8334601315200000;

/// The last millisecond a chrono date-time can hold (the last day of the year
/// 262142).
pub const LATEST_LOCAL_MS: i64 = 8210266876799999;

/// The hour of the local day at `ms` milliseconds after the epoch
/// (`Local.timestamp_millis_opt(ms)`, its earliest reading, then `hour()`).
/// Over the whole range a date-time can hold, chrono maps the instant to
/// exactly one local time (`MappedLocalTime::Single`), and
/// documents the hour as a number from 0 to 23. Which hour it is depends on
/// the machine's time zone, so it is not named.
#[verifier::external_body]
fn local_hour_at(ms: i64) -> (h: Option<u32>)
    requires
        EARLIEST_LOCAL_MS <= ms <= LATEST_LOCAL_MS,
    ensures
        h is Some,
        h is Some ==> h->0 < 24,
{
    chrono::Local.timestamp_millis_opt(ms).earliest().map(|t| t.hour())
}

/// The current hour of the local day by the system clock, from 0 to 23: the
/// hour of `Local::now()`. Where that call panics (a clock before the epoch, or
/// past the last date-time chrono can hold), a clock before the epoch counts
/// as the epoch, and one past the last date-time gives midnight (0).
pub fn local_hour() -> (h: u32)
    ensures
        h < 24,
{
    let ms = system_time_ms();
    if 0 <= ms && ms <= LATEST_LOCAL_MS {
        match local_hour_at(ms) {
            Some(x) => x,
            None => 0,
        }
    } else {
        0
    }
}

} // verus!
