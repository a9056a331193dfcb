//! Local times at a fixed UTC offset. chrono decides which offsets exist and
//! which local dates and times resolve to an instant.

use chrono::{FixedOffset, LocalResult, TimeZone};
use vstd::prelude::*;

verus! {

/// chrono's `FixedOffset`, carried opaquely from `fixed_offset` to
/// `resolves_single`.
#[verifier::external_type_specification]
#[verifier::external_body]
pub struct ExFixedOffset(FixedOffset);

/// The earliest year that chrono represents.
pub const MIN_YEAR: i32 = -262143;

/// The latest year that chrono represents.
pub const MAX_YEAR: i32 = 262142;

pub open spec fn is_leap_year(y: int) -> bool {
    (y % 4 == 0 && y % 100 != 0) || y % 400 == 0
}

pub open spec fn days_in_month(y: int, m: int) -> int {
    if m == 2 {
        if is_leap_year(y) {
            29
        } else {
            28
        }
    } else if m == 4 || m == 6 || m == 9 || m == 11 {
        30
    } else {
        31
    }
}

/// A date and time of day in the proleptic Gregorian calendar, within the
/// years that chrono represents.
pub open spec fn civil_valid(year: int, month: int, day: int, hour: int, minute: int) -> bool {
    &&& MIN_YEAR <= year <= MAX_YEAR
    &&& 1 <= month <= 12
    &&& 1 <= day <= days_in_month(year, month)
    &&& 0 <= hour < 24
    &&& 0 <= minute < 60
}

/// Relies on chrono's `FixedOffset::east_opt`: an offset exists exactly when
/// it is less than a day either way.
#[verifier::external_body]
fn fixed_offset(secs: i32) -> (r: Option<FixedOffset>)
    ensures
        r is Some <==> -86_400 < secs < 86_400,
{
    FixedOffset::east_opt(secs)
}

/// Relies on chrono's `TimeZone::with_ymd_and_hms` for a `FixedOffset`: a
/// valid calendar date and time of day (seconds zero) gives a single instant,
/// anything else none. At the first and last representable days the instant
/// may fall outside chrono's range, so there only the first clause is stated.
#[verifier::external_body]
fn resolves_single(tz: &FixedOffset, year: i32, month: u32, day: u32, hour: u32, minute: u32) -> (r: bool)
    ensures
        r ==> civil_valid(year as int, month as int, day as int, hour as int, minute as int),
        civil_valid(year as int, month as int, day as int, hour as int, minute as int) && MIN_YEAR
            < year < MAX_YEAR ==> r,
{
    matches!(tz.with_ymd_and_hms(year, month, day, hour, minute, 0), LocalResult::Single(_))
}

/// Whether a UTC offset of `secs` seconds exists.
pub fn offset_exists(secs: i32) -> (r: bool)
    ensures
        r <==> -86_400 < secs < 86_400,
{
    fixed_offset(secs).is_some()
}

/// A local date and time, to the minute, at a fixed offset east of UTC.
#[derive(Debug, Clone, Copy, PartialEq, Eq, Structural)]
pub struct Timestamp {
    pub year: i32,
    pub month: u32,
    pub day: u32,
    pub hour: u32,
    pub minute: u32,
    pub utc_offset: i32,
}

/// Builds the timestamp for a local date and time at an offset of
/// `utc_offset` seconds, if it names a single instant.
pub fn timestamp_at(year: i32, month: u32, day: u32, hour: u32, minute: u32, utc_offset: i32) -> (r: Option<Timestamp>)
    requires
        -86_400 < utc_offset < 86_400,
    ensures
        r matches Some(t) ==> civil_valid(year as int, month as int, day as int, hour as int, minute as int)
            && t == (Timestamp { year, month, day, hour, minute, utc_offset }),
        civil_valid(year as int, month as int, day as int, hour as int, minute as int) && MIN_YEAR
            < year < MAX_YEAR ==> r is Some,
{
    match fixed_offset(utc_offset) {
        Some(tz) => {
            if resolves_single(&tz, year, month, day, hour, minute) {
                Some(Timestamp { year, month, day, hour, minute, utc_offset })
            } else {
                None
            }
        },
        None => None,
    }
}

} // verus!
