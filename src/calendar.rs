//! Calendar arithmetic on day numbers, and the calls into chrono that turn a
//! calendar date into a day number.

use vstd::prelude::*;

verus! {

/// The smallest year that chrono's `NaiveDate` represents.
pub const MIN_YEAR: i32 = -262143;

/// The largest year that chrono's `NaiveDate` represents.
pub const MAX_YEAR: i32 = 262142;

pub open spec fn is_leap_year(y: int) -> bool {
    (y % 4 == 0 && y % 100 != 0) || y % 400 == 0
}

/// Days in the months of the year that come before month `m` (1-based).
pub open spec fn days_before_month(y: int, m: int) -> int {
    let common: int = if m <= 1 {
        0
    } else if m == 2 {
        31
    } else if m == 3 {
        59
    } else if m == 4 {
        90
    } else if m == 5 {
        120
    } else if m == 6 {
        151
    } else if m == 7 {
        181
    } else if m == 8 {
        212
    } else if m == 9 {
        243
    } else if m == 10 {
        273
    } else if m == 11 {
        304
    } else {
        334
    };
    if m > 2 && is_leap_year(y) {
        common + 1
    } else {
        common
    }
}

/// Days from 0001-01-01 to the first of January of year `y`.
pub open spec fn days_before_year(y: int) -> int {
    let p = y - 1;
    365 * p + p / 4 - p / 100 + p / 400
}

/// The day number of the date `y-m-d`: days since 1970-01-01.
pub open spec fn epoch_day(y: int, m: int, d: int) -> int {
    days_before_year(y) + days_before_month(y, m) + d - 1 - 719162
}

/// Whether `y-m-01` is a date that chrono represents.
pub open spec fn month_exists(year: int, month: int) -> bool {
    MIN_YEAR <= year <= MAX_YEAR && 1 <= month <= 12
}

/// The weekday of a day number, counted from Monday (0) to Sunday (6).
/// 1970-01-01 was a Thursday.
pub open spec fn weekday_index(day: int) -> int {
    (day + 3) % 7
}

/// A day of the week.
#[derive(Clone, Copy, Debug, PartialEq, Eq, Structural)]
pub enum Weekday {
    Monday,
    Tuesday,
    Wednesday,
    Thursday,
    Friday,
    Saturday,
    Sunday,
}

impl Weekday {
    pub open spec fn index(self) -> int {
        match self {
            Weekday::Monday => 0,
            Weekday::Tuesday => 1,
            Weekday::Wednesday => 2,
            Weekday::Thursday => 3,
            Weekday::Friday => 4,
            Weekday::Saturday => 5,
            Weekday::Sunday => 6,
        }
    }

    /// Days from the Monday of the same week.
    pub fn num_days_from_monday(&self) -> (r: u32)
        ensures
            r == self.index(),
    {
        match self {
            Weekday::Monday => 0,
            Weekday::Tuesday => 1,
            Weekday::Wednesday => 2,
            Weekday::Thursday => 3,
            Weekday::Friday => 4,
            Weekday::Saturday => 5,
            Weekday::Sunday => 6,
        }
    }
}

/// The weekday of day number `day`, counted from Monday.
pub fn weekday_of(day: i32) -> (r: u32)
    ensures
        r == weekday_index(day as int),
        r < 7,
{
    // Shift by a multiple of seven so that the remainder is taken of a
    // non-negative number.
    let shifted: i64 = day as i64 + 3 + 7 * 306783379;
    assert((day + 3) % 7 == (day + 3 + 7 * 306783379) % 7);
    (shifted % 7) as u32
}

/// Relies on chrono's `NaiveDate::from_ymd_opt`, which gives the first of the
/// month exactly when the month is 1 to 12 and the year lies in
/// `MIN_YEAR..=MAX_YEAR`, and on `NaiveDate::to_epoch_days`, which counts days
/// from 1970-01-01 in the proleptic Gregorian calendar.
#[verifier::external_body]
pub(crate) fn first_of_month_day(year: i32, month: u32) -> (r: Option<i32>)
    ensures
        r.is_some() <==> month_exists(year as int, month as int),
        r matches Some(d) ==> d == epoch_day(year as int, month as int, 1),
{
    chrono::NaiveDate::from_ymd_opt(year, month, 1).map(|d| d.to_epoch_days())
}

/// The month after `month` of `year`, rolling December over into January.
pub open spec fn month_after(year: int, month: int) -> (int, int) {
    if month == 12 {
        (year + 1, 1)
    } else {
        (year, month + 1)
    }
}

/// The month before `month` of `year`, rolling January back into December.
pub open spec fn month_before(year: int, month: int) -> (int, int) {
    if month == 1 {
        (year - 1, 12)
    } else {
        (year, month - 1)
    }
}

/// What chrono's `NaiveDate` parser makes of a text, as a day number.
pub uninterp spec fn parsed_day(s: Seq<char>) -> Option<i32>;

/// Relies on chrono's `FromStr` for `NaiveDate` (the `%Y-%m-%d` form) to read
/// a date, and on `NaiveDate::to_epoch_days` for its day number.
#[verifier::external_body]
pub(crate) fn parse_day(s: &str) -> (r: Option<i32>)
    ensures
        r == parsed_day(s@),
{
    s.parse::<chrono::NaiveDate>().ok().map(|d| d.to_epoch_days())
}

/// The `(year, month)` that follows the given one.
pub fn next_month(year: i32, month: u32) -> (r: (i32, u32))
    requires
        1 <= month <= 12,
        month == 12 ==> year < i32::MAX,
    ensures
        (r.0 as int, r.1 as int) == month_after(year as int, month as int),
{
    if month == 12 {
        (year + 1, 1)
    } else {
        (year, month + 1)
    }
}

/// The `(year, month)` that precedes the given one.
pub fn prev_month(year: i32, month: u32) -> (r: (i32, u32))
    requires
        1 <= month <= 12,
        month == 1 ==> year > i32::MIN,
    ensures
        (r.0 as int, r.1 as int) == month_before(year as int, month as int),
{
    if month == 1 {
        (year - 1, 12)
    } else {
        (year, month - 1)
    }
}

/// Stepping one month forward and then one month back returns to the month
/// one started from; so does stepping back and then forward.
pub proof fn lemma_month_round_trip(year: int, month: int)
    requires
        1 <= month <= 12,
    ensures
        ({
            let (y, m) = month_after(year, month);
            month_before(y, m) == (year, month)
        }),
        ({
            let (y, m) = month_before(year, month);
            month_after(y, m) == (year, month)
        }),
        1 <= month_after(year, month).1 <= 12,
        1 <= month_before(year, month).1 <= 12,
{
}

/// The day after `day`.
pub fn next_day(day: i32) -> (r: i32)
    requires
        day < i32::MAX,
    ensures
        r == day + 1,
{
    day + 1
}

/// The day before `day`.
pub fn prev_day(day: i32) -> (r: i32)
    requires
        day > i32::MIN,
    ensures
        r == day - 1,
{
    day - 1
}

} // verus!
