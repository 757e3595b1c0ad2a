//! Calendar dates, as far as vesting needs them.

use crate::ratio::Ratio;
use vstd::prelude::*;

verus! {

/// Months after which the first shares of a grant are awarded.
pub const CLIFF_MONTHS: i64 = 12;

/// Months after which a grant is awarded in full.
pub const VESTING_MONTHS: u64 = 48;

/// A day of the calendar, by the numbers of its year, month and day.
///
/// The month is one of the twelve and the day lies between 1 and 31;
/// whether the month has that day is left to whoever makes the date.
#[derive(Debug, Clone, Copy, PartialEq, Eq, Structural, Hash)]
pub struct CalendarDate {
    year: i32,
    month: u32,
    day: u32,
}

impl CalendarDate {
    /// The month and the day lie in the ranges of the calendar.
    #[verifier::type_invariant]
    pub closed spec fn wf(&self) -> bool {
        &&& 1 <= self.month <= 12
        &&& 1 <= self.day <= 31
    }

    /// The number of the year, as contracts speak of it.
    pub closed spec fn spec_year(&self) -> i32 {
        self.year
    }

    /// The number of the month, as contracts speak of it.
    pub closed spec fn spec_month(&self) -> u32 {
        self.month
    }

    /// The number of the day in its month, as contracts speak of it.
    pub closed spec fn spec_day(&self) -> u32 {
        self.day
    }

    /// The date of the given year, month and day, where the month is one of
    /// the twelve and the day lies between 1 and 31.
    pub fn from_ymd(year: i32, month: u32, day: u32) -> (date: Option<CalendarDate>)
        ensures
            date.is_some() <==> 1 <= month <= 12 && 1 <= day <= 31,
            date matches Some(d) ==> d.wf() && d.year() == year && d.month() == month && d.day()
                == day,
    {
        if 1 <= month && month <= 12 && 1 <= day && day <= 31 {
            Some(CalendarDate { year, month, day })
        } else {
            None
        }
    }

    /// The number of the year.
    #[verifier::when_used_as_spec(spec_year)]
    pub fn year(&self) -> (year: i32)
        ensures
            year == self.spec_year(),
    {
        self.year
    }

    /// The number of the month, from 1 to 12.
    #[verifier::when_used_as_spec(spec_month)]
    pub fn month(&self) -> (month: u32)
        ensures
            month == self.spec_month(),
            1 <= month <= 12,
    {
        proof {
            use_type_invariant(self);
        }
        self.month
    }

    /// The number of the day in its month, from 1 to 31.
    #[verifier::when_used_as_spec(spec_day)]
    pub fn day(&self) -> (day: u32)
        ensures
            day == self.spec_day(),
            1 <= day <= 31,
    {
        proof {
            use_type_invariant(self);
        }
        self.day
    }

    /// The months from this date to `later`, by the numbers of their years
    /// and months alone. It is negative where `later` lies in an earlier
    /// month.
    pub open spec fn spec_months_until(&self, later: CalendarDate) -> int {
        (later.year() - self.year()) * 12 + (later.month() - self.month())
    }

    /// The share of a grant made on this date that is awarded by `date`:
    /// nothing before the cliff, and from then on a 48th for each month
    /// gone by, also beyond the whole.
    pub open spec fn spec_percent_awarded(&self, date: CalendarDate) -> Ratio {
        Ratio {
            numerator: if self.spec_months_until(date) < CLIFF_MONTHS {
                0
            } else {
                self.spec_months_until(date) as u64
            },
            denominator: VESTING_MONTHS,
        }
    }

    /// The months from this date to `later`. The days of the month are left
    /// aside, so the count changes where the month does. It is negative
    /// where `later` lies in an earlier month.
    pub fn months_until(&self, later: &CalendarDate) -> (months: i64)
        ensures
            months == self.spec_months_until(*later),
    {
        let years: i64 = later.year as i64 - self.year as i64;
        let months: i64 = later.month as i64 - self.month as i64;
        years * 12 + months
    }

    /// The share of a grant made on this date that is awarded by `date`.
    /// Nothing is awarded in the first twelve months; from then on a 48th of
    /// the grant for each month since it was made. The share is not held to
    /// the whole: past 48 months it is more than one.
    pub fn percent_awarded(&self, date: &CalendarDate) -> (share: Ratio)
        ensures
            share == self.spec_percent_awarded(*date),
    {
        let elapsed: i64 = self.months_until(date);
        if elapsed < CLIFF_MONTHS {
            Ratio { numerator: 0, denominator: VESTING_MONTHS }
        } else {
            Ratio { numerator: elapsed as u64, denominator: VESTING_MONTHS }
        }
    }
}

} // verus!
