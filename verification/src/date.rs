use vstd::prelude::*;

verus! {

/// A calendar date, held as its day number in the proleptic Gregorian
/// calendar (1 January of year 1 is day 1).
///
/// Dates are totally ordered by their day number; that order is all the
/// evaluator reads of a date.
#[derive(Debug, Clone, Copy, PartialEq, Eq, PartialOrd, Ord, Hash, Structural)]
pub struct Date {
    pub days: i32,
}

impl View for Date {
    type V = int;

    open spec fn view(&self) -> int {
        self.days as int
    }
}

/// The day number of the calendar date `year`-`month`-`day`, or `None` where
/// no such date exists or the year is outside the supported calendar.
///
/// This is what `chrono::NaiveDate::from_ymd_opt` followed by
/// `chrono::Datelike::num_days_from_ce` computes; the calendar arithmetic is
/// chrono's and is not restated here.
pub uninterp spec fn civil_day_number(year: i32, month: u32, day: u32) -> Option<i32>;

/// Asks chrono for the date `year`-`month`-`day` (`NaiveDate::from_ymd_opt`)
/// and hands back its day number (`Datelike::num_days_from_ce`).
///
/// Trusted: the result is a function of the three arguments alone, named
/// `civil_day_number`. Neither call panics: `from_ymd_opt` answers `None` on
/// every triple that is not a date, and the day number of any date chrono
/// can hold fits an `i32`.
#[verifier::external_body]
fn day_number_of(year: i32, month: u32, day: u32) -> (r: Option<i32>)
    ensures
        r == civil_day_number(year, month, day),
{
    match chrono::NaiveDate::from_ymd_opt(year, month, day) {
        Some(date) => Some(chrono::Datelike::num_days_from_ce(&date)),
        None => None,
    }
}

/// The date that a day number stands for, where one was found.
pub open spec fn dated(days: Option<i32>) -> Option<Date> {
    match days {
        Some(n) => Some(Date { days: n }),
        None => None,
    }
}

impl Date {
    /// The date with the given day number.
    pub fn from_days(days: i32) -> (r: Date)
        ensures
            r@ == days,
    {
        Date { days }
    }

    /// The date `year`-`month`-`day`, where the calendar has one.
    pub fn from_ymd_opt(year: i32, month: u32, day: u32) -> (r: Option<Date>)
        ensures
            r == dated(civil_day_number(year, month, day)),
    {
        Date::from_day_number(day_number_of(year, month, day))
    }

    /// The date that a day number stands for, where one was found.
    pub fn from_day_number(days: Option<i32>) -> (r: Option<Date>)
        ensures
            r == dated(days),
    {
        match days {
            Some(n) => Some(Date { days: n }),
            None => None,
        }
    }

    /// This date's day number.
    pub fn days(&self) -> (r: i32)
        ensures
            r == self@,
    {
        self.days
    }

    /// Whether this date is `other` or earlier.
    pub fn is_on_or_before(&self, other: Date) -> (r: bool)
        ensures
            r == (self@ <= other@),
    {
        self.days <= other.days
    }

    /// Whether this date is later than `other`.
    pub fn is_after(&self, other: Date) -> (r: bool)
        ensures
            r == (self@ > other@),
    {
        self.days > other.days
    }
}

} // verus!
