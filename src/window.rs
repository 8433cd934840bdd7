//! The time range that a month view or a day view displays.

use vstd::prelude::*;

use crate::calendar::{
    epoch_day, first_of_month_day, month_exists, parse_day, parsed_day, weekday_index,
    weekday_of, Weekday, MAX_YEAR, MIN_YEAR,
};

verus! {

pub const SECONDS_PER_DAY: i64 = 86400;

/// The length of one row of the day view.
pub const SECONDS_PER_ROW: i64 = 900;

/// The number of day cells in a month view: six weeks.
pub const DAYS_IN_MONTH_VIEW: usize = 42;

/// The number of rows in a day view.
pub const NUM_ROWS: usize = 96;

/// A displayed time range from `start_inclusive` up to `end_exclusive`, in
/// UTC seconds, cut into `bucket_count` cells. Records are tested against it
/// with both ends closed.
#[derive(Clone, Copy, Debug, PartialEq, Eq, Structural)]
pub struct ViewWindow {
    pub start_inclusive: i64,
    pub end_exclusive: i64,
    pub bucket_count: usize,
}

impl ViewWindow {
    /// The window does not end before it starts.
    pub open spec fn well_formed(self) -> bool {
        self.start_inclusive <= self.end_exclusive
    }
}

/// Why a view cannot be shown.
#[derive(Clone, Copy, Debug, PartialEq, Eq, Structural)]
pub enum ViewError {
    /// The year and month, or the date, name no representable calendar day.
    InvalidDate,
}

/// The first day of the week starting on `week_start` that contains `day`.
pub open spec fn week_start_of(day: int, week_start: Weekday) -> int {
    day - (weekday_index(day) - week_start.index()) % 7
}

/// The window of a month view whose month begins on day number `first`.
pub open spec fn month_window_spec(first: int, week_start: Weekday) -> ViewWindow {
    let start = week_start_of(first, week_start) * SECONDS_PER_DAY;
    ViewWindow {
        start_inclusive: start as i64,
        end_exclusive: (start + DAYS_IN_MONTH_VIEW * SECONDS_PER_DAY) as i64,
        bucket_count: DAYS_IN_MONTH_VIEW,
    }
}

/// What `resolve_month_window` gives for `year` and `month`.
pub open spec fn month_window_of(year: int, month: int, week_start: Weekday) -> Result<
    ViewWindow,
    ViewError,
> {
    if month_exists(year, month) {
        Ok(month_window_spec(epoch_day(year, month, 1), week_start))
    } else {
        Err(ViewError::InvalidDate)
    }
}

/// The window of the day view of day number `day`.
pub open spec fn day_window_spec(day: int) -> ViewWindow {
    ViewWindow {
        start_inclusive: (day * SECONDS_PER_DAY) as i64,
        end_exclusive: ((day + 1) * SECONDS_PER_DAY) as i64,
        bucket_count: NUM_ROWS,
    }
}

/// The six weeks shown for the month whose first day is day number `first`,
/// starting on the `week_start` on or before that day.
pub fn month_window(first: i32, week_start: Weekday) -> (r: ViewWindow)
    ensures
        r == month_window_spec(first as int, week_start),
        r.well_formed(),
{
    let wd = weekday_of(first);
    let back = (wd + 7 - week_start.num_days_from_monday()) % 7;
    assert(back == (weekday_index(first as int) - week_start.index()) % 7);
    let start_day = first as i64 - back as i64;
    let start = start_day * SECONDS_PER_DAY;
    ViewWindow {
        start_inclusive: start,
        end_exclusive: start + DAYS_IN_MONTH_VIEW as i64 * SECONDS_PER_DAY,
        bucket_count: DAYS_IN_MONTH_VIEW,
    }
}

/// The month view of `month` (1 to 12) of `year`, with weeks starting on
/// `week_start`; `InvalidDate` when chrono has no such month.
pub fn resolve_month_window(year: i32, month: u32, week_start: Weekday) -> (r: Result<
    ViewWindow,
    ViewError,
>)
    ensures
        r == month_window_of(year as int, month as int, week_start),
        r matches Ok(w) ==> w.well_formed(),
{
    match first_of_month_day(year, month) {
        Some(first) => Ok(month_window(first, week_start)),
        None => Err(ViewError::InvalidDate),
    }
}

/// The whole of day number `day`, cut into rows of `SECONDS_PER_ROW`.
pub fn day_window(day: i32) -> (r: ViewWindow)
    ensures
        r == day_window_spec(day as int),
        r.well_formed(),
{
    let start = day as i64 * SECONDS_PER_DAY;
    ViewWindow {
        start_inclusive: start,
        end_exclusive: start + SECONDS_PER_DAY,
        bucket_count: (SECONDS_PER_DAY / SECONDS_PER_ROW) as usize,
    }
}

/// The day number of the date written in `date` (`%Y-%m-%d`);
/// `InvalidDate` when chrono cannot read it.
pub fn parse_date(date: &str) -> (r: Result<i32, ViewError>)
    ensures
        r == (match parsed_day(date@) {
            Some(day) => Ok(day),
            None => Err(ViewError::InvalidDate),
        }),
{
    match parse_day(date) {
        Some(day) => Ok(day),
        None => Err(ViewError::InvalidDate),
    }
}

/// The day view of the date written in `date` (`%Y-%m-%d`); `InvalidDate`
/// when chrono cannot read it.
pub fn resolve_day_window(date: &str) -> (r: Result<ViewWindow, ViewError>)
    ensures
        r == (match parsed_day(date@) {
            Some(day) => Ok(day_window_spec(day as int)),
            None => Err(ViewError::InvalidDate),
        }),
        r matches Ok(w) ==> w.well_formed(),
{
    match parse_date(date) {
        Ok(day) => Ok(day_window(day)),
        Err(e) => Err(e),
    }
}

/// The first of every month that chrono represents has a day number between
/// minus and plus one hundred million.
proof fn lemma_first_of_month_bounds(year: int, month: int)
    requires
        month_exists(year, month),
    ensures
        -100_000_000 <= epoch_day(year, month, 1) <= 100_000_000,
{
    let p = year - 1;
    assert(-100_000_000 <= 365 * p + p / 4 - p / 100 + p / 400 <= 100_000_000) by (nonlinear_arith)
        requires
            -262144 <= p <= 262141,
    ;
}

/// The month view of every month that chrono represents starts at midnight
/// of a `week_start` day, on or less than a week before the first of the
/// month, and spans exactly 42 days in 42 cells.
pub proof fn lemma_month_window_shape(year: int, month: int, week_start: Weekday)
    requires
        month_exists(year, month),
    ensures
        month_window_of(year, month, week_start) matches Ok(w) && {
            let first = epoch_day(year, month, 1) * SECONDS_PER_DAY;
            &&& w.start_inclusive % SECONDS_PER_DAY == 0
            &&& weekday_index(w.start_inclusive / SECONDS_PER_DAY) == week_start.index()
            &&& w.start_inclusive <= first < w.start_inclusive + 7 * SECONDS_PER_DAY
            &&& w.end_exclusive - w.start_inclusive == DAYS_IN_MONTH_VIEW * SECONDS_PER_DAY
            &&& w.bucket_count == DAYS_IN_MONTH_VIEW
        },
{
    let first = epoch_day(year, month, 1);
    lemma_first_of_month_bounds(year, month);
    let d = week_start_of(first, week_start);
    let back = (weekday_index(first) - week_start.index()) % 7;
    assert(0 <= back < 7);
    assert((d * 86400) / 86400 == d) by (nonlinear_arith);
    assert((d * 86400) % 86400 == 0) by (nonlinear_arith);
    assert(weekday_index(d) == week_start.index()) by (nonlinear_arith)
        requires
            d == first - back,
            back == (weekday_index(first) - week_start.index()) % 7,
            weekday_index(first) == (first + 3) % 7,
            weekday_index(d) == (d + 3) % 7,
            0 <= week_start.index() < 7,
    ;
}

/// A month outside 1 to 12, or a year outside chrono's range, gives
/// `InvalidDate`.
pub proof fn lemma_invalid_month_rejected(year: int, month: int, week_start: Weekday)
    requires
        month < 1 || month > 12 || year < MIN_YEAR || year > MAX_YEAR,
    ensures
        month_window_of(year, month, week_start) == Err::<ViewWindow, ViewError>(
            ViewError::InvalidDate,
        ),
{
}

/// The range of the day view of day number `day`: from its midnight to the
/// next midnight, the same ends as `day_window`.
pub fn get_day_view_range(day: i32) -> (r: (i64, i64))
    ensures
        r.0 == day * SECONDS_PER_DAY,
        r.1 == (day + 1) * SECONDS_PER_DAY,
        r.0 == day_window_spec(day as int).start_inclusive,
        r.1 == day_window_spec(day as int).end_exclusive,
{
    let start = day as i64 * SECONDS_PER_DAY;
    (start, start + SECONDS_PER_DAY)
}

} // verus!
