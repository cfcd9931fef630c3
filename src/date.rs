//! Calendar dates, held as year, month and day.
use chrono::Datelike;
use vstd::prelude::*;

verus! {

/// A calendar date without a time of day.
#[derive(Clone, Copy, Debug, PartialEq, Eq, Structural)]
pub struct Date {
    pub year: i32,
    pub month: u32,
    pub day: u32,
}

/// Whether `year` is a leap year of the proleptic Gregorian calendar.
pub open spec fn is_leap_year(year: int) -> bool {
    (year % 4 == 0 && year % 100 != 0) || year % 400 == 0
}

/// The number of days in a month of a year.
pub open spec fn days_in_month(year: int, month: int) -> int {
    if month == 2 {
        if is_leap_year(year) {
            29
        } else {
            28
        }
    } else if month == 4 || month == 6 || month == 9 || month == 11 {
        30
    } else {
        31
    }
}

/// Whether `a` comes strictly before `b` in the calendar.
pub open spec fn date_before(a: Date, b: Date) -> bool {
    a.year < b.year || (a.year == b.year && (a.month < b.month || (a.month == b.month && a.day
        < b.day)))
}

/// What chrono reads from a text as an ISO calendar date: year, month and day.
pub uninterp spec fn iso_date_of(s: Seq<char>) -> Option<(int, int, int)>;

impl Date {
    /// The date names a day that exists in the calendar.
    pub open spec fn wf(self) -> bool {
        1 <= self.month <= 12 && 1 <= self.day <= days_in_month(self.year as int, self.month as int)
    }

    /// Whether this date comes strictly before `other`.
    pub fn is_before(&self, other: &Date) -> (r: bool)
        ensures
            r == date_before(*self, *other),
    {
        self.year < other.year || (self.year == other.year && (self.month < other.month || (
        self.month == other.month && self.day < other.day)))
    }
}

/// Relies on chrono's `FromStr` for `NaiveDate` (`%Y-%m-%d`, the format its
/// serde support reads), and on `Datelike` for the parts of the date: a
/// `NaiveDate` always names a day that exists.
#[verifier::external_body]
pub(crate) fn parse_iso_date(s: &str) -> (r: Option<Date>)
    ensures
        match r {
            Some(d) => iso_date_of(s@) == Some((d.year as int, d.month as int, d.day as int))
                && d.wf(),
            None => iso_date_of(s@) is None,
        },
{
    match s.parse::<chrono::NaiveDate>() {
        Ok(d) => Some(Date { year: d.year(), month: d.month(), day: d.day() }),
        Err(_) => None,
    }
}

} // verus!
