//! UTC instants as seconds since the Unix epoch, and their calendar fields.

use chrono::{Datelike, Timelike};
use vstd::prelude::*;

verus! {

/// Seconds in one UTC day.
pub const SECS_PER_DAY: i64 = 86400;

/// The last second of the year 9999, the latest instant the library handles.
pub const MAX_INSTANT: i64 = 253402300799;

/// The UTC day number (days since 1970-01-01) of an instant.
pub open spec fn day_of(secs: int) -> int {
    secs / 86400
}

/// An instant within the range the library handles.
pub open spec fn valid_instant(secs: int) -> bool {
    0 <= secs <= MAX_INSTANT
}

/// The proleptic Gregorian (year, month, day) of a UTC day number, by
/// counting 400-year eras of 146097 days from 0000-03-01. Opaque: proofs
/// that need the arithmetic reveal it.
#[verifier::opaque]
pub open spec fn civil_date(day: int) -> (int, int, int) {
    let z = day + 719468;
    let era = z / 146097;
    let doe = z - era * 146097;
    let yoe = (doe - doe / 1460 + doe / 36524 - doe / 146096) / 365;
    let doy = doe - (365 * yoe + yoe / 4 - yoe / 100);
    let mp = (5 * doy + 2) / 153;
    let d = doy - (153 * mp + 2) / 5 + 1;
    let m = if mp < 10 {
        mp + 3
    } else {
        mp - 9
    };
    let y = yoe + era * 400 + if m <= 2 {
        1int
    } else {
        0int
    };
    (y, m, d)
}

/// Calendar fields of a UTC instant.
#[derive(Clone, Copy, Debug, PartialEq, Eq, Structural)]
pub struct UtcTime {
    pub year: i32,
    pub month: u32,
    pub day: u32,
    pub hour: u32,
    pub minute: u32,
    pub second: u32,
}

impl UtcTime {
    /// The fields are those of the instant `secs`.
    pub open spec fn describes(&self, secs: int) -> bool {
        &&& (self.year as int, self.month as int, self.day as int) == civil_date(day_of(secs))
        &&& 1970 <= self.year <= 9999
        &&& 1 <= self.month <= 12
        &&& 1 <= self.day <= 31
        &&& self.hour < 24
        &&& self.minute < 60
        &&& self.second < 60
        &&& self.hour * 3600 + self.minute * 60 + self.second == secs % 86400
    }
}

/// Relies on chrono's `DateTime::from_timestamp` and the `Datelike` /
/// `Timelike` accessors: an instant in range has a UTC date, and its time
/// of day is the remainder of the seconds by one day.
#[verifier::external_body]
pub(crate) fn utc_fields(secs: i64) -> (t: UtcTime)
    requires
        valid_instant(secs as int),
    ensures
        (t.year as int, t.month as int, t.day as int) == civil_date(day_of(secs as int)),
        t.describes(secs as int),
{
    let dt = chrono::DateTime::from_timestamp(secs, 0).unwrap();
    UtcTime {
        year: dt.year(),
        month: dt.month(),
        day: dt.day(),
        hour: dt.hour(),
        minute: dt.minute(),
        second: dt.second(),
    }
}

/// Calendar fields of a UTC instant.
pub fn utc_time_of(secs: i64) -> (t: UtcTime)
    requires
        valid_instant(secs as int),
    ensures
        t.describes(secs as int),
{
    utc_fields(secs)
}

} // verus!
