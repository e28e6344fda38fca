//! Calendar days as day numbers, and the conversions that chrono performs.

use vstd::prelude::*;

verus! {

/// Day number of 0001-01-01, the first day that a `Date` can hold.
pub const FIRST_DAY: i32 = 1;

/// Day number of 9999-12-31, the last day that a `Date` can hold.
pub const LAST_DAY: i32 = 3_652_059;

/// Day number of 1970-01-01, from which timestamps count.
pub const EPOCH_DAY: i32 = 719_163;

/// Seconds in a day.
pub const SECONDS_PER_DAY: i64 = 86_400;

/// The day number that chrono gives the calendar day `year`-`month`-`day`,
/// counting 0001-01-01 as day 1; `None` where chrono has no such day.
pub uninterp spec fn civil_day_number(year: int, month: int, day: int) -> Option<int>;

/// The text that chrono writes for the day with the given number under the
/// pattern `%Y-%m-%d`.
pub uninterp spec fn iso_date_text(day: int) -> Seq<char>;

/// The day number of the calendar day that chrono reads from a text under the
/// pattern `%Y-%m-%d`; `None` where chrono rejects the text.
pub uninterp spec fn iso_text_day(text: Seq<char>) -> Option<int>;

/// Calls `NaiveDate::from_ymd_opt` and, on a day that exists, `num_days_from_ce`.
/// The contract names the outcome; nothing else is claimed of it.
#[verifier::external_body]
fn day_number_of_civil(year: i32, month: u32, day: u32) -> (r: Option<i32>)
    ensures
        r matches Some(n) ==> civil_day_number(year as int, month as int, day as int) == Some(
            n as int,
        ),
        r is None ==> civil_day_number(year as int, month as int, day as int) is None,
{
    chrono::NaiveDate::from_ymd_opt(year, month, day).map(
        |d| chrono::Datelike::num_days_from_ce(&d),
    )
}

/// Calls `NaiveDate::from_num_days_from_ce_opt` and formats the day with
/// `%Y-%m-%d`. Every day number from `FIRST_DAY` to `LAST_DAY` lies within the
/// years that chrono represents, so the day exists and the pattern, which is
/// valid, formats it. The contract names the text.
#[verifier::external_body]
fn iso_text_of_day(days: i32) -> (r: String)
    requires
        FIRST_DAY <= days <= LAST_DAY,
    ensures
        r@ == iso_date_text(days as int),
{
    chrono::NaiveDate::from_num_days_from_ce_opt(days).unwrap().format("%Y-%m-%d").to_string()
}

/// Calls `NaiveDate::parse_from_str` with the pattern `%Y-%m-%d` and, on
/// success, `num_days_from_ce`. The contract names the outcome.
#[verifier::external_body]
fn day_of_iso_text(s: &str) -> (r: Option<i32>)
    ensures
        r matches Some(n) ==> iso_text_day(s@) == Some(n as int),
        r is None ==> iso_text_day(s@) is None,
{
    chrono::NaiveDate::parse_from_str(s, "%Y-%m-%d").ok().map(
        |d| chrono::Datelike::num_days_from_ce(&d),
    )
}

/// Whether a text is a calendar day written as `YYYY-MM-DD`, as chrono reads it.
pub fn is_iso_date(s: &str) -> (r: bool)
    ensures
        r == iso_text_day(s@).is_some(),
{
    day_of_iso_text(s).is_some()
}

/// Whether a day number lies in the years 1 to 9999.
pub open spec fn day_in_range(n: int) -> bool {
    FIRST_DAY <= n <= LAST_DAY
}

/// The accepted day with number `n`, if `n` is one.
pub open spec fn accepted_day(n: Option<int>) -> Option<int> {
    match n {
        Some(d) if day_in_range(d) => Some(d),
        _ => None,
    }
}

/// Second, counted from 1970-01-01T00:00:00Z, at which day `n` begins.
pub open spec fn day_start_second(n: int) -> int {
    (n - EPOCH_DAY) * SECONDS_PER_DAY
}

/// Last second of day `n`, counted from 1970-01-01T00:00:00Z.
pub open spec fn day_end_second(n: int) -> int {
    day_start_second(n) + SECONDS_PER_DAY - 1
}

/// A calendar day of the proleptic Gregorian calendar in the years 1 to 9999.
#[derive(Clone, Copy, Debug, PartialEq, Eq)]
pub struct Date {
    days: i32,
}

impl Date {
    #[verifier::type_invariant]
    spec fn within_years(self) -> bool {
        FIRST_DAY <= self.days <= LAST_DAY
    }

    /// The day's number: 0001-01-01 is day 1.
    pub closed spec fn day_number(self) -> int {
        self.days as int
    }

    /// The date with the given day number, if it lies in the years 1 to 9999.
    pub fn from_day_number(days: i32) -> (r: Option<Date>)
        ensures
            r is Some <==> day_in_range(days as int),
            r matches Some(d) ==> d.day_number() == days,
    {
        if FIRST_DAY <= days && days <= LAST_DAY {
            Some(Date { days })
        } else {
            None
        }
    }

    /// The date of a calendar day given by year, month and day of the month.
    pub fn from_ymd(year: i32, month: u32, day: u32) -> (r: Option<Date>)
        ensures
            match r {
                Some(d) => accepted_day(civil_day_number(year as int, month as int, day as int))
                    == Some(d.day_number()),
                None => accepted_day(civil_day_number(year as int, month as int, day as int))
                    is None,
            },
    {
        match day_number_of_civil(year, month, day) {
            Some(n) => Date::from_day_number(n),
            None => None,
        }
    }

    /// The date written as `YYYY-MM-DD`, if the text is one.
    pub fn parse_iso(s: &str) -> (r: Option<Date>)
        ensures
            match r {
                Some(d) => accepted_day(iso_text_day(s@)) == Some(d.day_number()),
                None => accepted_day(iso_text_day(s@)) is None,
            },
    {
        match day_of_iso_text(s) {
            Some(n) => Date::from_day_number(n),
            None => None,
        }
    }

    /// The date written as `YYYY-MM-DD`.
    pub fn to_iso(&self) -> (r: String)
        ensures
            r@ == iso_date_text(self.day_number()),
    {
        proof {
            use_type_invariant(self);
        }
        iso_text_of_day(self.days)
    }

    /// The day's number: 0001-01-01 is day 1.
    pub fn days(&self) -> (n: i32)
        ensures
            n == self.day_number(),
            day_in_range(n as int),
    {
        proof {
            use_type_invariant(self);
        }
        self.days
    }

    /// Second, counted from 1970-01-01T00:00:00Z, at which the day begins.
    pub fn start_timestamp(&self) -> (t: i64)
        ensures
            t == day_start_second(self.day_number()),
    {
        proof {
            use_type_invariant(self);
        }
        let since_epoch: i64 = self.days as i64 - EPOCH_DAY as i64;
        since_epoch * SECONDS_PER_DAY
    }

    /// Last second of the day, counted from 1970-01-01T00:00:00Z.
    pub fn end_timestamp(&self) -> (t: i64)
        ensures
            t == day_end_second(self.day_number()),
    {
        self.start_timestamp() + (SECONDS_PER_DAY - 1)
    }

    /// Whether this day comes before `other` or is the same day.
    pub fn not_after(&self, other: &Date) -> (r: bool)
        ensures
            r == (self.day_number() <= other.day_number()),
    {
        self.days <= other.days
    }
}

} // verus!
