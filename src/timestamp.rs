//! Instants as seconds since the Unix epoch, and the reading of a local
//! wall-clock time in the machine's time zone.

use vstd::prelude::*;
use chrono::TimeZone;

verus! {

pub open spec fn is_leap_year(y: int) -> bool {
    y % 4 == 0 && (y % 100 != 0 || y % 400 == 0)
}

pub open spec fn days_in_month(y: int, m: int) -> int {
    if m == 2 {
        if is_leap_year(y) { 29 } else { 28 }
    } else if m == 4 || m == 6 || m == 9 || m == 11 {
        30
    } else {
        31
    }
}

/// A date and time of day of the proleptic Gregorian calendar.
pub open spec fn valid_civil(y: int, mo: int, d: int, h: int, mi: int, s: int) -> bool {
    &&& 1 <= mo <= 12
    &&& 1 <= d <= days_in_month(y, mo)
    &&& 0 <= h < 24
    &&& 0 <= mi < 60
    &&& 0 <= s < 60
}

/// Days from 1970-01-01 to the given date of the proleptic Gregorian
/// calendar.
pub open spec fn days_from_civil(y: int, m: int, d: int) -> int {
    let y1 = if m <= 2 { y - 1 } else { y };
    let era = y1 / 400;
    let yoe = y1 - era * 400;
    let mp = if m > 2 { m - 3 } else { m + 9 };
    let doy = (153 * mp + 2) / 5 + d - 1;
    let doe = yoe * 365 + yoe / 4 - yoe / 100 + doy;
    era * 146097 + doe - 719468
}

/// Seconds since the Unix epoch of a date and time read as UTC.
pub open spec fn utc_seconds(y: int, mo: int, d: int, h: int, mi: int, s: int) -> int {
    days_from_civil(y, mo, d) * 86400 + h * 3600 + mi * 60 + s
}

/// Relies on chrono::TimeZone::with_ymd_and_hms on chrono::Local, which
/// reads a wall-clock time in the machine's time zone: no instant unless the
/// date and time exist in the calendar, and the instant is the wall-clock
/// time less the zone's offset, which chrono's FixedOffset keeps under a day.
/// `single` keeps only a time that names exactly one instant, and
/// `timestamp` gives that instant in seconds since the Unix epoch.
#[verifier::external_body]
pub(crate) fn local_instant(year: i32, month: u32, day: u32, hour: u32, min: u32, sec: u32) -> (r:
    Option<i64>)
    ensures
        r is Some ==> valid_civil(year as int, month as int, day as int, hour as int, min as int, sec as int),
        r matches Some(t) ==> utc_seconds(year as int, month as int, day as int, hour as int, min as int, sec as int) - 86400 < t
            < utc_seconds(year as int, month as int, day as int, hour as int, min as int, sec as int) + 86400,
{
    chrono::Local.with_ymd_and_hms(year, month, day, hour, min, sec).single().map(|t| t.timestamp())
}

} // verus!
