//! Instants in UTC as seconds and nanoseconds since the Unix epoch, and the heartbeat
//! schedule computed from them.
use chrono::Datelike;
use vstd::prelude::*;

verus! {

/// An instant: whole seconds since 1970-01-01T00:00:00Z and the nanoseconds past them
/// (from 1_000_000_000 up within a leap second).
#[derive(Debug, Clone, Copy, PartialEq, Eq)]
pub struct Timestamp {
    pub secs: i64,
    pub nanos: u32,
}

/// `a` is strictly later than `b` (chrono's order on `DateTime<Utc>`).
pub open spec fn later(a: Timestamp, b: Timestamp) -> bool {
    a.secs > b.secs || (a.secs == b.secs && a.nanos > b.nanos)
}

/// Whether `a` is strictly later than `b`.
pub fn is_later(a: Timestamp, b: Timestamp) -> (r: bool)
    ensures
        r == later(a, b),
{
    a.secs > b.secs || (a.secs == b.secs && a.nanos > b.nanos)
}

/// `chrono::Utc::now`: the current instant, read from the system clock; never within a
/// leap second, and within the range of `DateTime<Utc>`.
#[verifier::external_body]
pub(crate) fn utc_now() -> (r: Timestamp)
    ensures
        r.nanos < 1_000_000_000,
        MIN_UTC_SECS <= r.secs <= MAX_UTC_SECS,
{
    let now = chrono::Utc::now();
    Timestamp { secs: now.timestamp(), nanos: now.timestamp_subsec_nanos() }
}

/// The first second of the earliest `DateTime<Utc>` (-262143-01-01T00:00:00Z).
pub const MIN_UTC_SECS: i64 = -8334601315200i64;

/// The last second of the latest `DateTime<Utc>` (+262142-12-31T23:59:59Z).
pub const MAX_UTC_SECS: i64 = 8210266876799i64;

/// The largest whole number of seconds a `chrono::TimeDelta` holds (`i64::MAX / 1000`).
pub const MAX_DELTA_SECS: i64 = 9223372036854775i64;

/// Whether adding `interval_minutes` to `now` stays within what chrono represents.
pub open spec fn heartbeat_in_range(now: Timestamp, interval_minutes: i64) -> bool {
    &&& -MAX_DELTA_SECS <= interval_minutes * 60 <= MAX_DELTA_SECS
    &&& MIN_UTC_SECS <= now.secs + interval_minutes * 60 <= MAX_UTC_SECS
}

/// The instant `interval_minutes` after `now`, when it lies within what chrono represents.
pub open spec fn heartbeat_spec(now: Timestamp, interval_minutes: i64) -> Option<Timestamp> {
    if heartbeat_in_range(now, interval_minutes) {
        Some(Timestamp { secs: (now.secs + interval_minutes * 60) as i64, nanos: now.nanos })
    } else {
        None
    }
}

/// An instant that `DateTime<Utc>` can hold and the clock can give.
pub open spec fn clock_instant(now: Timestamp) -> bool {
    now.nanos < 1_000_000_000 && MIN_UTC_SECS <= now.secs <= MAX_UTC_SECS
}

/// The instant `interval_minutes` after `now`, or `None` where it falls outside what
/// chrono represents.
pub fn heartbeat_from(now: Timestamp, interval_minutes: i64) -> (r: Option<Timestamp>)
    ensures
        r == heartbeat_spec(now, interval_minutes),
{
    if interval_minutes < -153722867280912 || interval_minutes > 153722867280912 {
        return None;
    }
    let delta = interval_minutes * 60;
    if delta < -MAX_DELTA_SECS || delta > MAX_DELTA_SECS {
        return None;
    }
    if now.secs < MIN_UTC_SECS - delta || now.secs > MAX_UTC_SECS - delta {
        return None;
    }
    Some(Timestamp { secs: now.secs + delta, nanos: now.nanos })
}

/// When the next heartbeat is due: `interval_minutes` after the clock's current instant,
/// or `None` where that falls outside what chrono represents (never for an interval of 0).
pub fn next_heartbeat_at(interval_minutes: i64) -> (r: Option<Timestamp>)
    requires
        -MAX_DELTA_SECS <= interval_minutes * 60 <= MAX_DELTA_SECS,
    ensures
        exists|now: Timestamp| clock_instant(now) && r == heartbeat_spec(now, interval_minutes),
        interval_minutes == 0 ==> r is Some,
{
    let now = utc_now();
    let r = heartbeat_from(now, interval_minutes);
    assert(clock_instant(now) && r == heartbeat_spec(now, interval_minutes));
    r
}

/// The calendar date `chrono::NaiveDate::parse_from_str(raw, "%Y-%m-%d")` reads from
/// `raw`, as (year, month, day).
pub uninterp spec fn parsed_iso_date(raw: Seq<char>) -> Option<(int, int, int)>;

/// Whether `y` is a leap year of the proleptic Gregorian calendar.
pub open spec fn is_leap_year(y: int) -> bool {
    (y % 4 == 0 && y % 100 != 0) || y % 400 == 0
}

/// The number of days in month `m` of year `y`.
pub open spec fn days_in_month(y: int, m: int) -> int {
    if m == 2 {
        if is_leap_year(y) {
            29
        } else {
            28
        }
    } else if m == 4 || m == 6 || m == 9 || m == 11 {
        30
    } else {
        31
    }
}

/// A (year, month, day) triple as integers.
pub open spec fn date_view(t: (i32, u32, u32)) -> (int, int, int) {
    (t.0 as int, t.1 as int, t.2 as int)
}

/// A valid date within the years chrono represents.
pub open spec fn valid_date(t: (int, int, int)) -> bool {
    -262143 <= t.0 <= 262142 && 1 <= t.1 <= 12 && 1 <= t.2 <= days_in_month(t.0, t.1)
}

/// `chrono::NaiveDate::parse_from_str` with `%Y-%m-%d`: the date in `raw`, named by
/// [`parsed_iso_date`]; a parsed date is a valid date within chrono's years.
#[verifier::external_body]
pub(crate) fn parse_iso_date(raw: &str) -> (r: Option<(i32, u32, u32)>)
    ensures
        r is Some <==> parsed_iso_date(raw@) is Some,
        r is Some ==> parsed_iso_date(raw@) == Some(date_view(r->0)),
        r is Some ==> valid_date(date_view(r->0)),
{
    match chrono::NaiveDate::parse_from_str(raw, "%Y-%m-%d") {
        Ok(d) => Some((d.year(), d.month(), d.day())),
        Err(_) => None,
    }
}

/// Leap days among the years 1..=n (counted back from year 0 for non-positive `n`).
pub open spec fn leap_days_through(n: int) -> int {
    n / 4 - n / 100 + n / 400
}

/// Days from 1970-01-01 to the first day of year `y`.
pub open spec fn days_before_year(y: int) -> int {
    365 * (y - 1970) + leap_days_through(y - 1) - leap_days_through(1969)
}

/// Days from the first of the year to the first of month `m`.
pub open spec fn days_before_month(y: int, m: int) -> int {
    let base: int = if m == 1 {
        0
    } else if m == 2 {
        31
    } else if m == 3 {
        59
    } else if m == 4 {
        90
    } else if m == 5 {
        120
    } else if m == 6 {
        151
    } else if m == 7 {
        181
    } else if m == 8 {
        212
    } else if m == 9 {
        243
    } else if m == 10 {
        273
    } else if m == 11 {
        304
    } else {
        334
    };
    base + if m > 2 && is_leap_year(y) {
        1int
    } else {
        0int
    }
}

/// Days from 1970-01-01 to the date `y-m-d`.
pub open spec fn days_since_epoch(y: int, m: int, d: int) -> int {
    days_before_year(y) + days_before_month(y, m) + d - 1
}

/// The last second (23:59:59 UTC) of the date `y-m-d`.
pub open spec fn end_of_day(y: int, m: int, d: int) -> Timestamp {
    Timestamp { secs: (days_since_epoch(y, m, d) * 86400 + 86399) as i64, nanos: 0 }
}

/// Why an expiry date was refused.
#[derive(Debug, Clone, Copy, PartialEq, Eq)]
pub enum ExpiryError {
    /// The text is not a `YYYY-MM-DD` date.
    InvalidDate,
}

/// `NaiveDate::from_ymd_opt(y, m, d)`, then `and_hms_opt(23, 59, 59)` and the UTC
/// timestamp: the last second of the date `y-m-d` in seconds since the epoch. Claimed, from
/// chrono's proleptic Gregorian calendar: for a valid date within chrono's years this is
/// [`end_of_day`] of the date.
#[verifier::external_body]
fn end_of_day_secs(y: i32, m: u32, d: u32) -> (r: Option<i64>)
    requires
        valid_date(date_view((y, m, d))),
    ensures
        r == Some(end_of_day(y as int, m as int, d as int).secs),
{
    match chrono::NaiveDate::from_ymd_opt(y, m, d) {
        Some(date) => match date.and_hms_opt(23, 59, 59) {
            Some(dt) => Some(dt.and_utc().timestamp()),
            None => None,
        },
        None => None,
    }
}

/// The expiry instant for an optional `YYYY-MM-DD` date: the end of that day in UTC.
pub fn parse_expiry(expires: Option<String>) -> (r: Result<Option<Timestamp>, ExpiryError>)
    ensures
        match expires {
            None => r == Ok::<Option<Timestamp>, ExpiryError>(None),
            Some(raw) => match parsed_iso_date(raw@) {
                None => r == Err::<Option<Timestamp>, ExpiryError>(ExpiryError::InvalidDate),
                Some(date) => r == Ok::<Option<Timestamp>, ExpiryError>(
                    Some(end_of_day(date.0, date.1, date.2)),
                ),
            },
        },
{
    let raw = match expires {
        None => return Ok(None),
        Some(raw) => raw,
    };
    match parse_iso_date(raw.as_str()) {
        None => Err(ExpiryError::InvalidDate),
        Some((y, m, d)) => match end_of_day_secs(y, m, d) {
            Some(secs) => Ok(Some(Timestamp { secs, nanos: 0 })),
            None => Err(ExpiryError::InvalidDate),
        },
    }
}

} // verus!
