//! Calendar dates, as Julian day numbers with their day of the year.

use vstd::prelude::*;

verus! {

/// The day of the year (1 for January 1st) of the date with the given
/// Julian day number.
pub uninterp spec fn ordinal_of(julian: int) -> int;

/// The Julian day number of a calendar date.
pub uninterp spec fn julian_of_calendar(year: int, month: int, day: int) -> int;

/// The Julian day number of the first supported date, -9999-01-01.
pub const MIN_JULIAN: i32 = -1_930_999;

/// The Julian day number of the last supported date, 9999-12-31.
pub const MAX_JULIAN: i32 = 5_373_484;

/// The first and last supported years.
pub const MIN_YEAR: i32 = -9999;
pub const MAX_YEAR: i32 = 9999;

/// Whether `year` is a leap year of the Gregorian calendar.
pub open spec fn is_leap_year(year: int) -> bool {
    year % 4 == 0 && (year % 100 != 0 || year % 400 == 0)
}

/// The number of days of a month (1 to 12) of a year.
pub open spec fn days_in_month(year: int, month: int) -> int {
    if month == 2 {
        if is_leap_year(year) { 29 } else { 28 }
    } else if month == 4 || month == 6 || month == 9 || month == 11 {
        30
    } else {
        31
    }
}

/// Whether a year, month and day name a supported calendar date.
pub open spec fn calendar_valid(year: int, month: int, day: int) -> bool {
    &&& MIN_YEAR <= year <= MAX_YEAR
    &&& 1 <= month <= 12
    &&& 1 <= day <= days_in_month(year, month)
}

/// Relies on `time::Date::from_julian_day` and `time::Date::ordinal`: a
/// date exists exactly for the Julian days from `Date::MIN` (-9999-01-01)
/// to `Date::MAX` (9999-12-31), and its day of the year is documented to
/// lie in `1..=366`.
#[verifier::external_body]
fn julian_ordinal(julian: i32) -> (r: Option<u16>)
    ensures
        r is Some <==> MIN_JULIAN <= julian <= MAX_JULIAN,
        r matches Some(o) ==> 1 <= o <= 366 && o == ordinal_of(julian as int),
{
    match time::Date::from_julian_day(julian) {
        Ok(d) => Some(d.ordinal()),
        Err(_) => None,
    }
}

/// Relies on `time::Month::try_from` (months 1 to 12),
/// `time::Date::from_calendar_date` (years -9999 to 9999, days that exist
/// in the month) and `time::Date::to_julian_day`, whose result lies
/// between those of `Date::MIN` and `Date::MAX`.
#[verifier::external_body]
fn calendar_julian(year: i32, month: u8, day: u8) -> (r: Option<i32>)
    ensures
        r is Some <==> calendar_valid(year as int, month as int, day as int),
        r matches Some(j) ==> j == julian_of_calendar(year as int, month as int, day as int)
            && MIN_JULIAN <= j <= MAX_JULIAN,
{
    match time::Month::try_from(month) {
        Ok(m) => match time::Date::from_calendar_date(year, m, day) {
            Ok(d) => Some(d.to_julian_day()),
            Err(_) => None,
        },
        Err(_) => None,
    }
}

/// Relies on `time::OffsetDateTime::now_utc` and
/// `time::Date::to_julian_day`: today's date in UTC, whatever it is.
#[verifier::external_body]
pub(crate) fn today_julian() -> (r: i32) {
    time::OffsetDateTime::now_utc().date().to_julian_day()
}

/// Relies on `time::OffsetDateTime::now_utc` and
/// `time::OffsetDateTime::unix_timestamp`: the current time in whole
/// seconds since the Unix epoch, whatever it is.
#[verifier::external_body]
pub(crate) fn now_unix() -> (r: i64) {
    time::OffsetDateTime::now_utc().unix_timestamp()
}

/// The largest day-of-year ordinal.
pub const MAX_ORDINAL: u16 = 366;

/// A calendar date.
#[derive(Clone, Copy, PartialEq, Eq, Structural, Hash, Debug)]
pub struct Date {
    /// Julian day number.
    pub julian: i32,
    /// Day of the year, from 1.
    pub ordinal: u16,
}

impl Date {
    /// Whether the two fields describe the same calendar date.
    pub open spec fn wf(self) -> bool {
        &&& 1 <= self.ordinal <= MAX_ORDINAL
        &&& self.ordinal == ordinal_of(self.julian as int)
    }

    /// The date with the given Julian day number, if the calendar has it.
    pub fn from_julian_day(julian: i32) -> (r: Option<Date>)
        ensures
            r is Some <==> MIN_JULIAN <= julian <= MAX_JULIAN,
            r matches Some(d) ==> d.julian == julian && d.wf(),
    {
        match julian_ordinal(julian) {
            Some(o) => Some(Date { julian, ordinal: o }),
            None => None,
        }
    }

    /// The date of the given year, month (1 to 12) and day of the month,
    /// if it exists.
    pub fn from_calendar(year: i32, month: u8, day: u8) -> (r: Option<Date>)
        ensures
            r is Some <==> calendar_valid(year as int, month as int, day as int),
            r matches Some(d) ==> d.wf() && d.julian == julian_of_calendar(
                year as int,
                month as int,
                day as int,
            ),
    {
        match calendar_julian(year, month, day) {
            Some(j) => Date::from_julian_day(j),
            None => None,
        }
    }

    /// Julian day number of this date.
    pub fn julian_day(&self) -> (r: i32)
        ensures
            r == self.julian,
    {
        self.julian
    }

    /// Day of the year of this date, from 1.
    pub fn ordinal(&self) -> (r: u16)
        ensures
            r == self.ordinal,
    {
        self.ordinal
    }

    /// The date `days` days later (earlier where negative), if the calendar
    /// has it.
    pub fn checked_add_days(&self, days: i32) -> (r: Option<Date>)
        ensures
            r is Some <==> MIN_JULIAN <= self.julian + days <= MAX_JULIAN,
            r matches Some(d) ==> d.wf() && d.julian == self.julian + days,
    {
        let j = self.julian as i64 + days as i64;
        if j < i32::MIN as i64 || j > i32::MAX as i64 {
            None
        } else {
            Date::from_julian_day(j as i32)
        }
    }
}

} // verus!
