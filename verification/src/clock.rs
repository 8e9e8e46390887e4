//! The wall clock, behind trusted wrappers: the engine itself takes minutes
//! and day numbers as arguments, so everything it does is verified for every
//! clock value; these readings are what the surrounding application hands it.

use vstd::prelude::*;
use chrono::Datelike;

verus! {

/// Relies on `chrono::Local::now` and `DateTime::timestamp`: seconds since
/// the Unix epoch by the system clock. Nothing can be promised of a clock.
#[verifier::external_body]
fn now_epoch_seconds() -> (r: i64) {
    chrono::Local::now().timestamp()
}

/// Relies on `chrono::Local::now` and `Datelike::num_days_from_ce`: the
/// local date as a day count of the proleptic Gregorian calendar.
#[verifier::external_body]
fn today_days_ce() -> (r: i32) {
    chrono::Local::now().date_naive().num_days_from_ce()
}

/// One reading of the wall clock: a minute for durations and a day number
/// for date-ranged checks.
#[derive(Clone, Copy, Debug)]
pub struct ClockReading {
    pub minutes: u64,
    pub day: u64,
}

/// Read the clock: minutes since the Unix epoch and the local day number,
/// each clamped at zero. The sessions and payments operations take these as
/// plain arguments, so their contracts hold whatever the clock returned.
pub fn clock_now() -> (r: ClockReading)
{
    let secs = now_epoch_seconds();
    let minutes: u64 = if secs < 0 {
        0
    } else {
        (secs as u64) / 60
    };
    let days = today_days_ce();
    let day: u64 = if days < 0 {
        0
    } else {
        days as u64
    };
    ClockReading { minutes, day }
}

} // verus!
