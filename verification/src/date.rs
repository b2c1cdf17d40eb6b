//! Calendar days.

use vstd::prelude::*;
use crate::set::Member;

verus! {

/// A calendar day, held as its Julian day number: the count of days since
/// noon of 24 November 4714 BC in the proleptic Gregorian calendar.
///
/// A later day has the greater number, and two dates are the same day
/// exactly when their numbers are equal.
#[derive(Debug, Clone, Copy, PartialEq, Eq, Structural, PartialOrd, Ord, Hash)]
pub struct Date {
    julian_day: i32,
}

impl View for Date {
    type V = int;

    /// The Julian day number.
    closed spec fn view(&self) -> int {
        self.julian_day as int
    }
}

impl Date {
    /// The day whose Julian day number is `julian_day`.
    pub fn from_julian_day(julian_day: i32) -> (date: Date)
        ensures
            date@ == julian_day,
    {
        Date { julian_day }
    }

    /// The Julian day number of the day.
    pub fn to_julian_day(&self) -> (julian_day: i32)
        ensures
            julian_day == self@,
    {
        self.julian_day
    }

    /// Whether the day comes before `other`.
    pub fn is_before(&self, other: &Date) -> (before: bool)
        ensures
            before == (self@ < other@),
    {
        self.julian_day < other.julian_day
    }
}

impl Member for Date {
    fn same(&self, other: &Date) -> (same: bool) {
        self.julian_day == other.julian_day
    }
}

} // verus!
