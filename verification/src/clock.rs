//! Clock readings. Which time a clock returns is not known, so the
//! functions here state at most the ranges of its parts.
use chrono::{Datelike, Timelike};
use core::time::Duration;
use tokio::time::Instant;
use vstd::prelude::*;

verus! {

#[verifier::external_type_specification]
#[verifier::external_body]
pub struct ExInstant(tokio::time::Instant);

/// `tokio::time::Instant::now`: the current instant of the monotonic clock.
#[verifier::external_body]
pub(crate) fn instant_now() -> Instant {
    Instant::now()
}

/// `tokio::time::Instant::elapsed`: the time that has passed since `i`.
#[verifier::external_body]
pub(crate) fn instant_elapsed(i: &Instant) -> Duration {
    i.elapsed()
}

/// `chrono::Local::now`, taken apart into month, day, hour, minute, second
/// and the milliseconds within the second. Only the ranges that chrono
/// documents for the parts are stated; the milliseconds, which may exceed 999
/// during a leap second, get no bound.
#[verifier::external_body]
pub(crate) fn local_time_parts() -> (r: (u32, u32, u32, u32, u32, u32))
    ensures
        1 <= r.0 <= 12,
        1 <= r.1 <= 31,
        r.2 <= 23,
        r.3 <= 59,
        r.4 <= 59,
{
    let t = chrono::Local::now();
    (t.month(), t.day(), t.hour(), t.minute(), t.second(), t.timestamp_subsec_millis())
}

} // verus!
