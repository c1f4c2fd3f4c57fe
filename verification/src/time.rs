//! Time: timestamps are whole seconds since 1970-01-01 00:00:00 UTC.
//!
//! Elapsed time is plain arithmetic on timestamps. What depends on the
//! calendar (whether a timestamp stands for a date at all, and on which
//! day of the week it falls) is asked of `chrono`.

use chrono::{DateTime, Datelike};
use vstd::prelude::*;

verus! {

/// Seconds in an hour.
pub const SECONDS_PER_HOUR: i64 = 3600;

/// Seconds in a day.
pub const SECONDS_PER_DAY: i64 = 86400;

/// Whether `chrono` has a calendar instant for the timestamp `secs`:
/// the outcome of `DateTime::from_timestamp(secs, 0)` being `Some`.
pub uninterp spec fn timestamp_representable(secs: i64) -> bool;

/// The day of the week on which the timestamp `secs` falls, counted
/// from Sunday = 0 to Saturday = 6, as `chrono` computes it.
pub uninterp spec fn weekday_from_sunday(secs: i64) -> int;

/// Calls `chrono::DateTime::from_timestamp(secs, 0)` and, on the instant
/// it gives, `weekday().num_days_from_sunday()`. The result is `None`
/// exactly where there is no instant; the day's number is the named
/// one, and `chrono` documents it as 0 for Sunday up to 6 for Saturday.
#[verifier::external_body]
pub(crate) fn weekday_index(secs: i64) -> (r: Option<u8>)
    ensures
        r is Some <==> timestamp_representable(secs),
        r matches Some(d) ==> d as int == weekday_from_sunday(secs) && d < 7,
{
    match DateTime::from_timestamp(secs, 0) {
        Some(instant) => Some(instant.weekday().num_days_from_sunday() as u8),
        None => None,
    }
}

/// Whether the calendar has an instant for the timestamp `secs`.
pub(crate) fn is_representable(secs: i64) -> (r: bool)
    ensures
        r == timestamp_representable(secs),
{
    weekday_index(secs).is_some()
}

/// Division that rounds toward zero, as Rust divides signed integers.
pub open spec fn div_toward_zero(a: int, b: int) -> int
    recommends
        b > 0,
{
    if a >= 0 {
        a / b
    } else {
        -((-a) / b)
    }
}

/// Whole days from `then` to `now`, rounded toward zero; negative when
/// `then` lies after `now`.
pub open spec fn elapsed_days(now: i64, then: i64) -> int {
    div_toward_zero(now - then, SECONDS_PER_DAY as int)
}

/// Whole hours from `then` to `now`, rounded toward zero.
pub open spec fn elapsed_hours(now: i64, then: i64) -> int {
    div_toward_zero(now - then, SECONDS_PER_HOUR as int)
}

/// Whether `then` is at most `days` whole days before `now`.
pub open spec fn within_days(now: i64, then: i64, days: i64) -> bool {
    elapsed_days(now, then) <= days
}

/// Whether `then` is at most `hours` whole hours before `now`.
pub open spec fn within_hours(now: i64, then: i64, hours: i64) -> bool {
    elapsed_hours(now, then) <= hours
}

/// `a / b` rounded toward zero, for a positive `b`.
fn quotient_toward_zero(a: i128, b: i128) -> (r: i128)
    requires
        b > 0,
        -0x4_0000_0000_0000_0000 <= a <= 0x4_0000_0000_0000_0000,
    ensures
        r == div_toward_zero(a as int, b as int),
{
    if a >= 0 {
        a / b
    } else {
        let m: i128 = -a;
        let q: i128 = m / b;
        assert(0 <= q <= m) by (nonlinear_arith)
            requires
                q == m / b,
                m >= 0,
                b > 0,
        ;
        -q
    }
}

/// Whole days from `then` to `now`, rounded toward zero.
pub fn days_between(now: i64, then: i64) -> (r: i128)
    ensures
        r == elapsed_days(now, then),
{
    quotient_toward_zero(now as i128 - then as i128, SECONDS_PER_DAY as i128)
}

/// Whole hours from `then` to `now`, rounded toward zero.
pub fn hours_between(now: i64, then: i64) -> (r: i128)
    ensures
        r == elapsed_hours(now, then),
{
    quotient_toward_zero(now as i128 - then as i128, SECONDS_PER_HOUR as i128)
}

/// Whole days from the instant `at`, given in seconds since the epoch,
/// to `now`, rounded toward zero.
pub open spec fn elapsed_days_since(now: i64, at: u64) -> int {
    div_toward_zero(now - at, SECONDS_PER_DAY as int)
}

/// Whole days from the instant `at` to `now`, rounded toward zero.
pub fn days_since(now: i64, at: u64) -> (r: i64)
    ensures
        r == elapsed_days_since(now, at),
{
    let q = quotient_toward_zero(now as i128 - at as i128, SECONDS_PER_DAY as i128);
    q as i64
}

/// Whether `then` is at most `days` whole days before `now`.
pub fn is_within_days(now: i64, then: i64, days: i64) -> (r: bool)
    ensures
        r == within_days(now, then, days),
{
    days_between(now, then) <= days as i128
}

/// Whether `then` is at most `hours` whole hours before `now`.
pub fn is_within_hours(now: i64, then: i64, hours: i64) -> (r: bool)
    ensures
        r == within_hours(now, then, hours),
{
    hours_between(now, then) <= hours as i128
}

/// How far back from the snapshot a query looks.
#[derive(Debug, Clone, Copy, PartialEq, Eq, Structural)]
pub enum Window {
    /// The whole history.
    Ever,
    /// At most so many whole days.
    Days(i64),
    /// At most so many whole hours.
    Hours(i64),
    /// At most so many seconds.
    Seconds(i64),
}

impl Window {
    /// Whether the instant `then` lies in the window that ends at `now`.
    pub open spec fn admits(&self, now: i64, then: i64) -> bool {
        match self {
            Window::Ever => true,
            Window::Days(d) => within_days(now, then, *d),
            Window::Hours(h) => within_hours(now, then, *h),
            Window::Seconds(s) => now - then <= *s,
        }
    }

    /// Whether the instant `then` lies in the window that ends at `now`.
    pub fn holds(&self, now: i64, then: i64) -> (r: bool)
        ensures
            r == self.admits(now, then),
    {
        match self {
            Window::Ever => true,
            Window::Days(d) => is_within_days(now, then, *d),
            Window::Hours(h) => is_within_hours(now, then, *h),
            Window::Seconds(s) => now as i128 - then as i128 <= *s as i128,
        }
    }
}

} // verus!
