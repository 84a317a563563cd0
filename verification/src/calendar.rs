//! Calendar dates of the proleptic Gregorian calendar, with the reserved
//! date that stands for "no date found".

use crate::number::zero_padded;
use vstd::prelude::*;

verus! {

/// A year, a month and a day as mathematical integers: what a
/// [`CalendarDate`] stands for in contracts.
pub struct Ymd {
    pub year: int,
    pub month: int,
    pub day: int,
}

/// The first year that a date can lie in.
pub const MIN_YEAR: i32 = -262_143;

/// The last year that a date can lie in.
pub const MAX_YEAR: i32 = 262_142;

/// The pattern that [`CalendarDate::format_ymd`] writes a date in.
pub const YMD_PATTERN: &'static str = "%Y/%m/%d";

/// Whether `year` has a 29th of February.
pub open spec fn is_leap_year(year: int) -> bool {
    year % 4 == 0 && (year % 100 != 0 || year % 400 == 0)
}

/// The number of days of the given month; 31 for a month that is none.
pub open spec fn days_in_month(year: int, month: int) -> int {
    if month == 2 {
        if is_leap_year(year) {
            29
        } else {
            28
        }
    } else if month == 4 || month == 6 || month == 9 || month == 11 {
        30
    } else {
        31
    }
}

/// Whether the three numbers name a day of the calendar.
pub open spec fn is_calendar_date(year: int, month: int, day: int) -> bool {
    &&& MIN_YEAR <= year <= MAX_YEAR
    &&& 1 <= month <= 12
    &&& 1 <= day <= days_in_month(year, month)
}

/// Whether `date` is a day of the calendar.
pub open spec fn is_date(date: Ymd) -> bool {
    is_calendar_date(date.year, date.month, date.day)
}

/// The date that stands for "not determined": the first of January of year 0.
pub open spec fn sentinel_ymd() -> Ymd {
    Ymd { year: 0, month: 1, day: 1 }
}

/// The date that the three numbers name, or the sentinel where they name none.
pub open spec fn date_or_sentinel(year: int, month: int, day: int) -> Ymd {
    if is_calendar_date(year, month, day) {
        Ymd { year, month, day }
    } else {
        sentinel_ymd()
    }
}

/// Whether `first` is the same day as `second` or an earlier one.
pub open spec fn not_after(first: Ymd, second: Ymd) -> bool {
    ||| first.year < second.year
    ||| first.year == second.year && first.month < second.month
    ||| first.year == second.year && first.month == second.month && first.day <= second.day
}

/// How a year is written: four digits or more; with a sign in front where it
/// lies outside 0 to 9999.
pub open spec fn year_text(year: int) -> Seq<char> {
    if 0 <= year <= 9999 {
        zero_padded(year as nat, 4)
    } else if year < 0 {
        seq!['-'] + zero_padded((-year) as nat, 4)
    } else {
        seq!['+'] + zero_padded(year as nat, 4)
    }
}

/// A date written as year, month and day with `/` between them, the month and
/// the day with two digits each.
pub open spec fn ymd_slash_text(date: Ymd) -> Seq<char> {
    year_text(date.year) + seq!['/'] + zero_padded(date.month as nat, 2) + seq!['/'] + zero_padded(
        date.day as nat,
        2,
    )
}

/// Asks `chrono::NaiveDate::from_ymd_opt` whether the three numbers name a
/// date. It accepts the days that exist in the proleptic Gregorian calendar,
/// in the years from [`MIN_YEAR`] to [`MAX_YEAR`], and nothing else.
#[verifier::external_body]
fn chrono_is_date(year: i32, month: u32, day: u32) -> (exists: bool)
    ensures
        exists == is_calendar_date(year as int, month as int, day as int),
{
    chrono::NaiveDate::from_ymd_opt(year, month, day).is_some()
}

/// Has `chrono::NaiveDate::format` write a date in the pattern `%Y/%m/%d`.
/// Chrono writes `%Y` with four digits and zeros in front, and with a sign
/// before a year outside 0 to 9999; `%m` and `%d` with two digits each.
/// Numbers that name no date give `None`.
#[verifier::external_body]
fn chrono_format(year: i32, month: u32, day: u32, pattern: &str) -> (text: Option<String>)
    requires
        pattern@ == YMD_PATTERN@,
    ensures
        text is Some == is_calendar_date(year as int, month as int, day as int),
        text matches Some(t) ==> t@ == ymd_slash_text(
            Ymd { year: year as int, month: month as int, day: day as int },
        ),
{
    chrono::NaiveDate::from_ymd_opt(year, month, day).map(|date| date.format(pattern).to_string())
}

/// A day of the proleptic Gregorian calendar.
#[derive(Clone, Copy, Debug, PartialEq, Eq, Structural)]
pub struct CalendarDate {
    year: i32,
    month: u32,
    day: u32,
}

impl View for CalendarDate {
    type V = Ymd;

    closed spec fn view(&self) -> Ymd {
        Ymd { year: self.year as int, month: self.month as int, day: self.day as int }
    }
}

impl CalendarDate {
    #[verifier::type_invariant]
    closed spec fn names_a_day(self) -> bool {
        is_calendar_date(self.year as int, self.month as int, self.day as int)
    }

    /// The date that the three numbers name, if they name one.
    pub fn from_ymd_opt(year: i32, month: u32, day: u32) -> (date: Option<CalendarDate>)
        ensures
            date is Some == is_calendar_date(year as int, month as int, day as int),
            date matches Some(d) ==> d@ == (Ymd {
                year: year as int,
                month: month as int,
                day: day as int,
            }),
    {
        if chrono_is_date(year, month, day) {
            Some(CalendarDate { year, month, day })
        } else {
            None
        }
    }

    /// The date that stands for "not determined".
    pub fn sentinel() -> (date: CalendarDate)
        ensures
            date@ == sentinel_ymd(),
    {
        CalendarDate { year: 0, month: 1, day: 1 }
    }

    /// The date that the three numbers name, or the sentinel where they name
    /// none.
    pub fn from_ymd_or_sentinel(year: i32, month: u32, day: u32) -> (date: CalendarDate)
        ensures
            date@ == date_or_sentinel(year as int, month as int, day as int),
    {
        match CalendarDate::from_ymd_opt(year, month, day) {
            Some(date) => date,
            None => CalendarDate::sentinel(),
        }
    }

    /// Whether this is the date that stands for "not determined".
    pub fn is_sentinel(&self) -> (b: bool)
        ensures
            b == (self@ == sentinel_ymd()),
    {
        self.year == 0 && self.month == 1 && self.day == 1
    }

    /// Whether the two dates are the same day.
    pub fn same_day(&self, other: &CalendarDate) -> (b: bool)
        ensures
            b == (self@ == other@),
    {
        self.year == other.year && self.month == other.month && self.day == other.day
    }

    /// Whether this is the same day as `other` or an earlier one.
    pub fn is_not_after(&self, other: &CalendarDate) -> (b: bool)
        ensures
            b == not_after(self@, other@),
    {
        self.year < other.year || (self.year == other.year && (self.month < other.month || (
        self.month == other.month && self.day <= other.day)))
    }

    /// The year of the date.
    pub fn year(&self) -> (year: i32)
        ensures
            year == self@.year,
    {
        self.year
    }

    /// The month of the date, from 1 to 12.
    pub fn month(&self) -> (month: u32)
        ensures
            month == self@.month,
    {
        self.month
    }

    /// The day of the month, from 1 on.
    pub fn day(&self) -> (day: u32)
        ensures
            day == self@.day,
    {
        self.day
    }

    /// Does nothing when run; tells the verifier that this date, as every
    /// date, names a day of the calendar.
    pub fn names_day(&self)
        ensures
            is_date(self@),
    {
        proof {
            use_type_invariant(self);
        }
    }

    /// The date written as in `2024/01/07`.
    pub fn format_ymd(&self) -> (text: String)
        ensures
            text@ == ymd_slash_text(self@),
    {
        proof {
            use_type_invariant(self);
        }
        match chrono_format(self.year, self.month, self.day, YMD_PATTERN) {
            Some(text) => text,
            None => String::new(),
        }
    }
}

} // verus!
