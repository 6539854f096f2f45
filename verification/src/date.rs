//! Calendar dates without a time of day, and their `DD/MM/YYYY` notation.

use crate::decimal::zero_padded;
use vstd::prelude::*;

verus! {

/// The earliest year a date can lie in.
pub const MIN_YEAR: i32 = -262143;

/// The latest year a date can lie in.
pub const MAX_YEAR: i32 = 262142;

/// Leap years of the proleptic Gregorian calendar.
pub open spec fn is_leap_year(year: int) -> bool {
    year % 4 == 0 && (year % 100 != 0 || year % 400 == 0)
}

/// The number of days of a month; zero where `month` names none.
pub open spec fn days_in_month(year: int, month: int) -> int {
    if month == 2 {
        if is_leap_year(year) {
            29
        } else {
            28
        }
    } else if month == 4 || month == 6 || month == 9 || month == 11 {
        30
    } else if 1 <= month <= 12 {
        31
    } else {
        0
    }
}

/// The year, month and day that name a day of the proleptic Gregorian
/// calendar in a year that a date can lie in.
pub open spec fn is_valid_date(year: int, month: int, day: int) -> bool {
    &&& MIN_YEAR <= year <= MAX_YEAR
    &&& 1 <= month <= 12
    &&& 1 <= day <= days_in_month(year, month)
}

/// A year as a statement shows it: four digits, zero-padded, for the years 0
/// to 9999; any other year with its sign in front, `+` or `-`, and at least
/// four digits.
pub open spec fn year_text(year: int) -> Seq<char> {
    if 0 <= year <= 9999 {
        zero_padded(year as nat, 4)
    } else if year < 0 {
        seq!['-'] + zero_padded((-year) as nat, 4)
    } else {
        seq!['+'] + zero_padded(year as nat, 4)
    }
}

/// A date as `DD/MM/YYYY`: day and month with two digits each.
pub open spec fn date_text(year: int, month: int, day: int) -> Seq<char> {
    zero_padded(day as nat, 2) + seq!['/'] + zero_padded(month as nat, 2) + seq!['/'] + year_text(
        year,
    )
}

/// A day of the calendar. Every value names a day that exists.
#[derive(Clone, Copy, Debug, PartialEq, Eq, Structural)]
pub struct Date {
    year: i32,
    month: u32,
    day: u32,
}

/// Formats a calendar date with chrono: `NaiveDate::from_ymd_opt` builds the
/// date and `NaiveDate::format` with the pattern `%d/%m/%Y` writes it.
///
/// Unverified. The contract claims that chrono accepts exactly the dates of
/// the proleptic Gregorian calendar in the years `MIN_YEAR` to `MAX_YEAR`,
/// and that the pattern gives the day and the month as two zero-padded
/// digits each and the year as `year_text` describes, with `/` between them.
#[verifier::external_body]
fn format_day_month_year(year: i32, month: u32, day: u32) -> (text: Option<String>)
    ensures
        text is Some <==> is_valid_date(year as int, month as int, day as int),
        text is Some ==> text->Some_0@ == date_text(year as int, month as int, day as int),
{
    match chrono::NaiveDate::from_ymd_opt(year, month, day) {
        Some(date) => Some(date.format("%d/%m/%Y").to_string()),
        None => None,
    }
}

/// Whether `year` is a leap year.
fn leap_year(year: i32) -> (leap: bool)
    requires
        MIN_YEAR <= year <= MAX_YEAR,
    ensures
        leap == is_leap_year(year as int),
{
    // The calendar repeats every 400 years; a shift by a multiple of 400
    // keeps the remainders and makes the year positive.
    let shifted: u32 = (year + 262400) as u32;
    shifted % 4 == 0 && (shifted % 100 != 0 || shifted % 400 == 0)
}

/// The number of days in a month of a year.
fn month_length(year: i32, month: u32) -> (days: u32)
    requires
        MIN_YEAR <= year <= MAX_YEAR,
        1 <= month <= 12,
    ensures
        days == days_in_month(year as int, month as int),
{
    if month == 2 {
        if leap_year(year) {
            29
        } else {
            28
        }
    } else if month == 4 || month == 6 || month == 9 || month == 11 {
        30
    } else {
        31
    }
}

impl Date {
    #[verifier::type_invariant]
    spec fn exists_in_calendar(self) -> bool {
        is_valid_date(self.year as int, self.month as int, self.day as int)
    }

    /// The year of this date.
    pub closed spec fn spec_year(&self) -> i32 {
        self.year
    }

    /// The month of this date, from 1 for January.
    pub closed spec fn spec_month(&self) -> u32 {
        self.month
    }

    /// The day of the month of this date, from 1.
    pub closed spec fn spec_day(&self) -> u32 {
        self.day
    }

    /// This date as `DD/MM/YYYY`.
    pub open spec fn text(&self) -> Seq<char> {
        date_text(self.year() as int, self.month() as int, self.day() as int)
    }

    /// The date with the given year, month and day, if there is such a day.
    pub fn new(year: i32, month: u32, day: u32) -> (date: Option<Date>)
        ensures
            date is Some <==> is_valid_date(year as int, month as int, day as int),
            date matches Some(d) ==> d.year() == year && d.month() == month && d.day() == day,
    {
        if year < MIN_YEAR || year > MAX_YEAR || month < 1 || month > 12 || day < 1 {
            return None;
        }
        if day > month_length(year, month) {
            return None;
        }
        Some(Date { year, month, day })
    }

    /// The date with the given year, month and day, which must name a day
    /// that exists.
    pub(crate) fn from_valid_parts(year: i32, month: u32, day: u32) -> (date: Date)
        requires
            is_valid_date(year as int, month as int, day as int),
        ensures
            date.year() == year,
            date.month() == month,
            date.day() == day,
    {
        Date { year, month, day }
    }

    /// The year of this date.
    #[verifier::when_used_as_spec(spec_year)]
    pub fn year(&self) -> (year: i32)
        ensures
            year == self.year(),
    {
        self.year
    }

    /// The month of this date, from 1 for January.
    #[verifier::when_used_as_spec(spec_month)]
    pub fn month(&self) -> (month: u32)
        ensures
            month == self.month(),
    {
        self.month
    }

    /// The day of the month of this date, from 1.
    #[verifier::when_used_as_spec(spec_day)]
    pub fn day(&self) -> (day: u32)
        ensures
            day == self.day(),
    {
        self.day
    }

    /// Writes this date as `DD/MM/YYYY`.
    pub fn to_text(&self) -> (text: String)
        ensures
            text@ == self.text(),
    {
        proof {
            use_type_invariant(self);
        }
        match format_day_month_year(self.year, self.month, self.day) {
            Some(text) => text,
            None => String::new(),
        }
    }
}

/// A date is its year, month and day: two dates that agree in all three are
/// the same date.
pub proof fn lemma_date_is_its_parts(a: Date, b: Date)
    requires
        a.year() == b.year(),
        a.month() == b.month(),
        a.day() == b.day(),
    ensures
        a == b,
{
}

} // verus!
