//! Where the date of a transaction comes from.

use crate::date::{is_valid_date, Date};
use chrono::Datelike;
use vstd::prelude::*;

verus! {

/// A source of the current date. An account asks it once for every
/// transaction that it records.
pub trait Clock {
    /// The date of today.
    fn now(&self) -> Date;
}

/// The clock of the machine, read in UTC.
pub struct SystemClock;

/// Reads the current date in UTC from chrono: `Utc::now`, then
/// `DateTime::date_naive`, then the year, month and day of that date.
///
/// Unverified. Which date comes back depends on the moment of the call; the
/// contract claims only that it is a day that exists in the calendar, which
/// holds of every `NaiveDate`. On a machine whose clock stands before 1970
/// chrono stops the program instead of answering.
#[verifier::external_body]
fn utc_today() -> (today: (i32, u32, u32))
    ensures
        is_valid_date(today.0 as int, today.1 as int, today.2 as int),
{
    let today = chrono::Utc::now().date_naive();
    (today.year(), today.month(), today.day())
}

impl Clock for SystemClock {
    /// The date of today in UTC, as the clock of the machine has it. Whatever
    /// the moment, it is a day that exists in the calendar.
    fn now(&self) -> (today: Date)
        ensures
            is_valid_date(today.year() as int, today.month() as int, today.day() as int),
    {
        let (year, month, day) = utc_today();
        Date::from_valid_parts(year, month, day)
    }
}

} // verus!
