//! Week calendar: Monday-aligned week boundaries over calendar dates.
//!
//! A date is held as its day number in the proleptic Gregorian calendar
//! (0001-01-01 is day 1), so that stepping by days is plain integer
//! arithmetic. The day of the week comes from `chrono`.

use chrono::Datelike;
use chrono::NaiveDate;
use vstd::prelude::*;

verus! {

/// Day number of 0001-01-01, the first supported date. It is a Monday.
pub const MIN_DAY_NUMBER: i32 = 1;

/// Day number of 9999-12-31, the last supported date.
pub const MAX_DAY_NUMBER: i32 = 3_652_059;

/// Zero-based day of the week of a day number, counted from Monday.
pub open spec fn weekday_index(day: int) -> int {
    (day - 1) % 7
}

/// Day number of the Monday on or before `day`.
pub open spec fn monday_on_or_before(day: int) -> int {
    day - weekday_index(day)
}

/// Number of week starts from `start` to `end` inclusive, stepping by seven days.
pub open spec fn weeks_count(start: int, end: int) -> nat {
    if start <= end {
        ((end - start) / 7 + 1) as nat
    } else {
        0
    }
}

/// A calendar date between 0001-01-01 and 9999-12-31.
#[derive(Clone, Copy, Debug, PartialEq, Eq, Structural)]
pub struct Date {
    days: i32,
}

impl View for Date {
    type V = int;

    closed spec fn view(&self) -> int {
        self.days as int
    }
}

/// Calls chrono: `NaiveDate::from_num_days_from_ce_opt`, then `Datelike::weekday` and
/// `Weekday::num_days_from_monday` on the date it made.
///
/// Claimed of chrono, not proved: every day number from 0001-01-01 to 9999-12-31 is a
/// date for it, and the weekday it reports is the position of the day in the seven-day
/// cycle in which day 1 (0001-01-01) is a Monday: Monday 0, Sunday 6.
#[verifier::external_body]
fn chrono_weekday_from_monday(days: i32) -> (r: Option<u32>)
    ensures
        MIN_DAY_NUMBER <= days <= MAX_DAY_NUMBER ==> r.is_some(),
        r matches Some(w) ==> w == weekday_index(days as int),
{
    match NaiveDate::from_num_days_from_ce_opt(days) {
        Some(date) => Some(date.weekday().num_days_from_monday()),
        None => None,
    }
}

impl Date {
    /// Every date lies in the supported range.
    #[verifier::type_invariant]
    pub open spec fn in_range(self) -> bool {
        MIN_DAY_NUMBER <= self@ <= MAX_DAY_NUMBER
    }

    /// The date with the given day number (0001-01-01 is day 1), if it is supported.
    pub fn from_num_days_from_ce(days: i32) -> (r: Option<Date>)
        ensures
            r.is_some() <==> MIN_DAY_NUMBER <= days <= MAX_DAY_NUMBER,
            r matches Some(d) ==> d@ == days,
    {
        if MIN_DAY_NUMBER <= days && days <= MAX_DAY_NUMBER {
            Some(Date { days })
        } else {
            None
        }
    }

    /// The day number of this date (0001-01-01 is day 1).
    pub fn num_days_from_ce(&self) -> (r: i32)
        ensures
            r == self@,
            MIN_DAY_NUMBER <= r <= MAX_DAY_NUMBER,
    {
        proof {
            use_type_invariant(self);
        }
        self.days
    }

    /// The date `days` days after this one, or before it for a negative number, if it
    /// is supported.
    pub fn checked_add_days(&self, days: i32) -> (r: Option<Date>)
        ensures
            r.is_some() <==> MIN_DAY_NUMBER <= self@ + days <= MAX_DAY_NUMBER,
            r matches Some(d) ==> d@ == self@ + days,
    {
        proof {
            use_type_invariant(self);
        }
        let moved: i64 = self.days as i64 + days as i64;
        if MIN_DAY_NUMBER as i64 <= moved && moved <= MAX_DAY_NUMBER as i64 {
            Some(Date { days: moved as i32 })
        } else {
            None
        }
    }

    /// Zero-based day of the week, counted from Monday.
    pub fn weekday_from_monday(&self) -> (r: u32)
        ensures
            r == weekday_index(self@),
            r < 7,
    {
        proof {
            use_type_invariant(self);
        }
        match chrono_weekday_from_monday(self.days) {
            Some(w) => w,
            None => 0,
        }
    }
}

/// The Monday on or before `date`: `date` itself if it is a Monday.
pub fn monday_of(date: Date) -> (r: Date)
    ensures
        r@ == monday_on_or_before(date@),
        weekday_index(r@) == 0,
        r@ <= date@ < r@ + 7,
{
    let days: i32 = date.num_days_from_ce();
    let back: u32 = date.weekday_from_monday();
    let monday: i32 = days - back as i32;
    match Date::from_num_days_from_ce(monday) {
        Some(r) => r,
        None => date,
    }
}

/// The bounds of the week that holds `now`: its Monday, and the Monday after it, which
/// is the first day that no longer belongs to the week.
pub fn current_week_bounds(now: Date) -> (bounds: (Date, Date))
    requires
        monday_on_or_before(now@) + 7 <= MAX_DAY_NUMBER,
    ensures
        bounds.0@ == monday_on_or_before(now@),
        bounds.1@ == bounds.0@ + 7,
{
    let start = monday_of(now);
    let end = Date { days: start.num_days_from_ce() + 7 };
    (start, end)
}

/// The Monday after the week that holds `today`: the first week of a commitment
/// that is created today.
pub fn upcoming_monday(today: Date) -> (r: Date)
    requires
        monday_on_or_before(today@) + 7 <= MAX_DAY_NUMBER,
    ensures
        r@ == monday_on_or_before(today@) + 7,
        weekday_index(r@) == 0,
        today@ < r@ <= today@ + 7,
{
    current_week_bounds(today).1
}

/// Every seventh day from `start_monday` up to `end_monday`, both included when they
/// are a whole number of weeks apart. Empty when `start_monday` is after `end_monday`.
pub fn weeks_between(start_monday: Date, end_monday: Date) -> (weeks: Vec<Date>)
    ensures
        weeks@.len() == weeks_count(start_monday@, end_monday@),
        forall|i: int| 0 <= i < weeks@.len() ==> (#[trigger] weeks@[i])@ == start_monday@ + 7 * i,
{
    let end: i32 = end_monday.num_days_from_ce();
    let mut current: i32 = start_monday.num_days_from_ce();
    let mut weeks: Vec<Date> = Vec::new();
    while current <= end
        invariant
            MIN_DAY_NUMBER <= current <= MAX_DAY_NUMBER + 7,
            end == end_monday@,
            end <= MAX_DAY_NUMBER,
            current == start_monday@ + 7 * weeks@.len(),
            weeks@.len() <= weeks_count(start_monday@, end_monday@),
            current <= end ==> weeks@.len() < weeks_count(start_monday@, end_monday@),
            current > end ==> weeks@.len() == weeks_count(start_monday@, end_monday@),
            forall|i: int| 0 <= i < weeks@.len() ==> (#[trigger] weeks@[i])@ == start_monday@ + 7 * i,
        decreases end + 7 - current,
    {
        weeks.push(Date { days: current });
        current = current + 7;
    }
    weeks
}

/// Number of weeks from `start_monday` through `end_monday`, the last one included:
/// the length of `weeks_between`, without building the list.
pub fn count_weeks(start_monday: Date, end_monday: Date) -> (n: u32)
    ensures
        n == weeks_count(start_monday@, end_monday@),
{
    let start: i32 = start_monday.num_days_from_ce();
    let end: i32 = end_monday.num_days_from_ce();
    if start <= end {
        ((end - start) / 7 + 1) as u32
    } else {
        0
    }
}

/// Taking the Monday of a date twice gives the same day as taking it once, and the
/// day it gives is a Monday.
pub proof fn monday_of_is_idempotent(day: int)
    ensures
        monday_on_or_before(monday_on_or_before(day)) == monday_on_or_before(day),
        weekday_index(monday_on_or_before(day)) == 0,
{
}

/// A day lies in the seven days that start at a Monday exactly when that Monday is
/// the Monday on or before the day.
pub proof fn week_holds_day(monday: int, day: int)
    requires
        weekday_index(monday) == 0,
    ensures
        (monday <= day < monday + 7) <==> monday_on_or_before(day) == monday,
{
}

} // verus!
