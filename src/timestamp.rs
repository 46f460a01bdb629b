use vstd::prelude::*;

use crate::errors::MyError;

verus! {

/// A calendar date and a wall-clock time, to the second, in UTC.
#[derive(Debug, Clone, Copy, PartialEq, Eq, Structural)]
pub struct CivilDateTime {
    pub year: i32,
    pub month: u32,
    pub day: u32,
    pub hour: u32,
    pub minute: u32,
    pub second: u32,
}

pub open spec fn is_leap_year(y: int) -> bool {
    (y % 4 == 0 && y % 100 != 0) || y % 400 == 0
}

pub open spec fn days_in_month(y: int, m: int) -> int {
    if m == 2 {
        if is_leap_year(y) { 29 } else { 28 }
    } else if m == 4 || m == 6 || m == 9 || m == 11 {
        30
    } else {
        31
    }
}

/// The years that chrono's `NaiveDate` can hold.
pub open spec fn year_in_range(y: int) -> bool {
    -262143 <= y <= 262142
}

pub open spec fn valid_date(y: int, m: int, d: int) -> bool {
    year_in_range(y) && 1 <= m <= 12 && 1 <= d <= days_in_month(y, m)
}

pub open spec fn valid_time(h: int, mi: int, s: int) -> bool {
    0 <= h < 24 && 0 <= mi < 60 && 0 <= s < 60
}

/// Days from 1970-01-01 to a date of the proleptic Gregorian calendar.
pub open spec fn days_from_civil(y: int, m: int, d: int) -> int {
    let y1 = if m <= 2 { y - 1 } else { y };
    let era = y1 / 400;
    let yoe = y1 % 400;
    let mp = if m > 2 { m - 3 } else { m + 9 };
    let doy = (153 * mp + 2) / 5 + d - 1;
    let doe = yoe * 365 + yoe / 4 - yoe / 100 + doy;
    era * 146097 + doe - 719468
}

/// Nanoseconds since the Unix epoch of a date and time, whatever their size.
pub open spec fn epoch_nanos(dt: CivilDateTime) -> int {
    let days = days_from_civil(dt.year as int, dt.month as int, dt.day as int);
    let secs = days * 86400 + dt.hour * 3600 + dt.minute * 60 + dt.second;
    secs * 1_000_000_000
}

/// The nanosecond timestamp of a date and time: none where the fields make no
/// valid date or time, or where the count of nanoseconds does not fit in `i64`.
pub open spec fn epoch_nanos_opt(dt: CivilDateTime) -> Option<i64> {
    if valid_date(dt.year as int, dt.month as int, dt.day as int) && valid_time(
        dt.hour as int,
        dt.minute as int,
        dt.second as int,
    ) && i64::MIN <= epoch_nanos(dt) <= i64::MAX {
        Some(epoch_nanos(dt) as i64)
    } else {
        None
    }
}

/// Relies on chrono's `NaiveDate::from_ymd_opt` (none for a day that the
/// proleptic Gregorian calendar lacks or a year out of its range),
/// `NaiveDate::and_hms_nano_opt` (none for an hour, minute or second out of
/// range) and `DateTime::timestamp_nanos_opt` (nanoseconds since the epoch,
/// none where they overflow `i64`).
#[verifier::external_body]
fn utc_nanos(dt: CivilDateTime) -> (r: Option<i64>)
    ensures
        r == epoch_nanos_opt(dt),
{
    match chrono::NaiveDate::from_ymd_opt(dt.year, dt.month, dt.day) {
        Some(date) => match date.and_hms_nano_opt(dt.hour, dt.minute, dt.second, 0) {
            Some(naive) => naive.and_utc().timestamp_nanos_opt(),
            None => None,
        },
        None => None,
    }
}

/// The nanosecond timestamp of an optional bound. An absent bound stays
/// absent; fields that make no valid date and time, or one out of the range
/// of `i64` nanoseconds, give a date error.
pub fn parse_timestamp(ts: Option<CivilDateTime>) -> (r: Result<Option<i64>, MyError>)
    ensures
        ts is None ==> r == Ok::<Option<i64>, MyError>(None),
        ts matches Some(dt) ==> match epoch_nanos_opt(dt) {
            Some(v) => r == Ok::<Option<i64>, MyError>(Some(v)),
            None => r matches Err(MyError::DateError(_)),
        },
{
    match ts {
        None => Ok(None),
        Some(dt) => match utc_nanos(dt) {
            Some(v) => Ok(Some(v)),
            None => Err(
                MyError::DateError(
                    "could not make a timestamp of year, month, day, hour, minute, second".to_string(),
                ),
            ),
        },
    }
}

} // verus!
