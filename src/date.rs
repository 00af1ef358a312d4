//! Calendar dates, as `chrono::NaiveDate` bounds them.
use vstd::prelude::*;
use chrono::Datelike;

verus! {

/// Earliest year of a date.
pub const MIN_YEAR: i32 = -262143;

/// Latest year of a date.
pub const MAX_YEAR: i32 = 262142;

/// Whether a year of the proleptic Gregorian calendar has 366 days.
pub open spec fn is_leap_year(y: int) -> bool {
    (y % 4 == 0 && y % 100 != 0) || y % 400 == 0
}

/// The number of days of a month of a year.
pub open spec fn days_in_month(y: int, m: int) -> int {
    if m == 2 {
        if is_leap_year(y) {
            29
        } else {
            28
        }
    } else if m == 4 || m == 6 || m == 9 || m == 11 {
        30
    } else {
        31
    }
}

/// Whether (year, month, day) names a day of the calendar within the supported years.
pub open spec fn valid_date(y: int, m: int, d: int) -> bool {
    &&& MIN_YEAR <= y <= MAX_YEAR
    &&& 1 <= m <= 12
    &&& 1 <= d <= days_in_month(y, m)
}

/// The (year, month, day) that `chrono` parses from a text in a format, or `None` where
/// the text does not match.
pub uninterp spec fn date_parse(s: Seq<char>, format: Seq<char>) -> Option<(int, int, int)>;

/// The view of an optional triple of machine integers.
pub open spec fn opt_ymd_view(p: Option<(i32, u32, u32)>) -> Option<(int, int, int)> {
    match p {
        Some(q) => Some((q.0 as int, q.1 as int, q.2 as int)),
        None => None,
    }
}

/// A day of the calendar.
#[derive(Clone, Copy, Debug, PartialEq, Eq)]
pub struct Date {
    year: i32,
    month: u32,
    day: u32,
}

impl View for Date {
    type V = (int, int, int);

    closed spec fn view(&self) -> (int, int, int) {
        (self.year as int, self.month as int, self.day as int)
    }
}

impl Date {
    /// Every date names a day of the calendar.
    #[verifier::type_invariant]
    pub open spec fn well_formed(self) -> bool {
        valid_date(self@.0, self@.1, self@.2)
    }

    /// The date (year, month, day), or `None` where there is no such day.
    pub fn from_ymd_opt(year: i32, month: u32, day: u32) -> (r: Option<Date>)
        ensures
            r is Some <==> valid_date(year as int, month as int, day as int),
            r matches Some(d) ==> d@ == (year as int, month as int, day as int),
    {
        if year < MIN_YEAR || year > MAX_YEAR || month < 1 || month > 12 || day < 1 {
            return None;
        }
        let y = year as i64;
        let leap = (y % 4 == 0 && y % 100 != 0) || y % 400 == 0;
        let days: u32 = if month == 2 {
            if leap {
                29
            } else {
                28
            }
        } else if month == 4 || month == 6 || month == 9 || month == 11 {
            30
        } else {
            31
        };
        if day > days {
            None
        } else {
            Some(Date { year, month, day })
        }
    }

    /// The date written in `s` in the `chrono` format `format` (such as `"%Y/%m/%d"`),
    /// or `None` where it does not match.
    pub fn parse_from_str(s: &str, format: &str) -> (r: Option<Date>)
        ensures
            opt_view(r) == date_parse(s@, format@),
    {
        match parse_ymd(s, format) {
            Some(p) => Some(Date { year: p.0, month: p.1, day: p.2 }),
            None => None,
        }
    }

    /// The year.
    pub fn year(&self) -> (r: i32)
        ensures
            r as int == self@.0,
    {
        self.year
    }

    /// The month, from 1 to 12.
    pub fn month(&self) -> (r: u32)
        ensures
            r as int == self@.1,
    {
        self.month
    }

    /// The day of the month, from 1.
    pub fn day(&self) -> (r: u32)
        ensures
            r as int == self@.2,
    {
        self.day
    }
}

/// The view of an optional date.
pub open spec fn opt_view(d: Option<Date>) -> Option<(int, int, int)> {
    match d {
        Some(x) => Some(x@),
        None => None,
    }
}

/// Relies on `chrono::NaiveDate::parse_from_str`, which gives only dates of the calendar
/// within its years, and on `Datelike::year`, `month` and `day`.
#[verifier::external_body]
fn parse_ymd(s: &str, format: &str) -> (r: Option<(i32, u32, u32)>)
    ensures
        opt_ymd_view(r) == date_parse(s@, format@),
        r matches Some(p) ==> valid_date(p.0 as int, p.1 as int, p.2 as int),
{
    chrono::NaiveDate::parse_from_str(s, format).ok().map(|d| (d.year(), d.month(), d.day()))
}

} // verus!
