//! Points in time as plain civil (calendar) values.
//!
//! A record's capture time and the store's lifecycle timestamps are held as
//! year/month/day/hour/minute/second fields, which is exactly the precision
//! the persisted form carries. Obtaining the current time is a caller
//! concern; this module only models, validates and orders time values.

use vstd::prelude::*;

verus! {

/// A point in time in the proleptic Gregorian calendar, UTC, at second
/// precision.
#[derive(Clone, Copy, Debug, PartialEq, Eq, Hash, Structural)]
pub struct Timestamp {
    pub year: u16,
    pub month: u8,
    pub day: u8,
    pub hour: u8,
    pub minute: u8,
    pub second: u8,
}

/// Whether `y` is a leap year in the Gregorian calendar.
pub open spec fn spec_is_leap_year(y: int) -> bool {
    (y % 4 == 0 && y % 100 != 0) || y % 400 == 0
}

/// Number of days in month `m` of year `y` (months are 1-based).
pub open spec fn spec_days_in_month(y: int, m: int) -> int {
    if m == 2 {
        if spec_is_leap_year(y) {
            29
        } else {
            28
        }
    } else if m == 4 || m == 6 || m == 9 || m == 11 {
        30
    } else {
        31
    }
}

/// A timestamp the store can carry: calendar-consistent fields, with the
/// year capped at four decimal digits by the persisted form.
pub open spec fn ts_valid(t: Timestamp) -> bool {
    &&& t.year <= 9999
    &&& 1 <= t.month <= 12
    &&& 1 <= t.day <= spec_days_in_month(t.year as int, t.month as int)
    &&& t.hour < 24
    &&& t.minute < 60
    &&& t.second < 60
}

/// The Unix epoch, 1970-01-01 00:00:00 UTC.
pub open spec fn ts_epoch() -> Timestamp {
    Timestamp { year: 1970, month: 1, day: 1, hour: 0, minute: 0, second: 0 }
}

/// Chronological order of two timestamps: lexicographic over the fields,
/// most significant first.
pub open spec fn ts_le(a: Timestamp, b: Timestamp) -> bool {
    if a.year != b.year {
        a.year < b.year
    } else if a.month != b.month {
        a.month < b.month
    } else if a.day != b.day {
        a.day < b.day
    } else if a.hour != b.hour {
        a.hour < b.hour
    } else if a.minute != b.minute {
        a.minute < b.minute
    } else {
        a.second <= b.second
    }
}

impl Timestamp {
    /// Builds a timestamp from its fields, accepting exactly the
    /// calendar-consistent combinations.
    pub fn new(year: u16, month: u8, day: u8, hour: u8, minute: u8, second: u8) -> (r: Option<
        Timestamp,
    >)
        ensures
            ({
                let t = Timestamp { year, month, day, hour, minute, second };
                if ts_valid(t) {
                    r == Some(t)
                } else {
                    r is None
                }
            }),
    {
        let t = Timestamp { year, month, day, hour, minute, second };
        if t.is_valid() {
            Some(t)
        } else {
            None
        }
    }

    /// Checks the fields for calendar consistency.
    pub fn is_valid(&self) -> (r: bool)
        ensures
            r == ts_valid(*self),
    {
        self.year <= 9999 && 1 <= self.month && self.month <= 12 && 1 <= self.day && self.day
            <= days_in_month(self.year, self.month) && self.hour < 24 && self.minute < 60
            && self.second < 60
    }

    /// Whether this timestamp is at or after the Unix epoch.
    pub fn not_before_epoch(&self) -> (r: bool)
        ensures
            r == ts_le(ts_epoch(), *self),
    {
        self.year > 1970 || (self.year == 1970 && (self.month > 1 || (self.month == 1 && self.day
            >= 1)))
    }
}

/// Whether `y` is a leap year.
pub fn is_leap_year(y: u16) -> (r: bool)
    ensures
        r == spec_is_leap_year(y as int),
{
    (y % 4 == 0 && y % 100 != 0) || y % 400 == 0
}

/// Number of days in month `m` of year `y`.
pub fn days_in_month(y: u16, m: u8) -> (r: u8)
    ensures
        r as int == spec_days_in_month(y as int, m as int),
{
    if m == 2 {
        if is_leap_year(y) {
            29
        } else {
            28
        }
    } else if m == 4 || m == 6 || m == 9 || m == 11 {
        30
    } else {
        31
    }
}

} // verus!
