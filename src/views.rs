//! The events of a month view and of a day view, taken from all of a user's
//! events.

use vstd::prelude::*;

use crate::calendar::Weekday;
use crate::model::{Event, Schedulable};
use crate::placement::{cell_members, in_day_cell, lemma_indices_where, overlaps, place_records};
use crate::window::{
    day_window, day_window_spec, month_window_of, resolve_month_window, ViewError, ViewWindow,
    DAYS_IN_MONTH_VIEW,
};

verus! {

/// The day on which the weeks of a month view start.
pub const WEEK_START: Weekday = Weekday::Monday;

/// The events of day cell `b` of month view `w`, in input order.
pub open spec fn events_in_cell(events: Seq<Event>, w: ViewWindow, b: int) -> Seq<
    Event,
> {
    cell_members(events, w, b).map_values(|i: usize| events[i as int])
}

/// The events of the month view of `ym` (year, month), day cell by day cell;
/// `InvalidDate` when there is no such month.
pub fn get_month_events(events: &Vec<Event>, ym: (i32, u32)) -> (r: Result<
    Vec<Vec<Event>>,
    ViewError,
>)
    ensures
        match month_window_of(ym.0 as int, ym.1 as int, WEEK_START) {
            Err(e) => r == Err::<Vec<Vec<Event>>, ViewError>(e),
            Ok(w) => r matches Ok(cells) && cells@.len() == DAYS_IN_MONTH_VIEW && forall|b: int|
                0 <= b < DAYS_IN_MONTH_VIEW ==> #[trigger] cells@[b]@ == events_in_cell(
                    events@,
                    w,
                    b,
                ),
        },
{
    let (year, month) = ym;
    let w = match resolve_month_window(year, month, WEEK_START) {
        Ok(w) => w,
        Err(e) => return Err(e),
    };
    let members = place_records(events, &w);
    let n = events.len();
    let mut cells: Vec<Vec<Event>> = Vec::new();
    for b in 0..w.bucket_count
        invariant
            n == events@.len(),
            members@.len() == w.bucket_count,
            forall|c: int|
                0 <= c < w.bucket_count ==> #[trigger] members@[c]@ == cell_members(
                    events@,
                    w,
                    c,
                ),
            cells@.len() == b,
            forall|c: int| 0 <= c < b ==> #[trigger] cells@[c]@ == events_in_cell(events@, w, c),
    {
        let cell = &members[b];
        let ghost m = cell_members(events@, w, b as int);
        let mut shown: Vec<Event> = Vec::new();
        for k in 0..cell.len()
            invariant
                n == events@.len(),
                cell@ == m,
                m == cell_members(events@, w, b as int),
                shown@ == m.subrange(0, k as int).map_values(|i: usize| events@[i as int]),
        {
            let i = cell[k];
            proof {
                assert(m.contains(i)) by {
                    assert(m[k as int] == i);
                }
                lemma_indices_where(
                    events@.len(),
                    |j: int| in_day_cell(events@[j].span(), w, b as int),
                    i,
                );
            }
            shown.push(events[i].duplicate());
            assert(m.subrange(0, k + 1).map_values(|i: usize| events@[i as int]) =~= m.subrange(
                0,
                k as int,
            ).map_values(|i: usize| events@[i as int]).push(events@[i as int]));
        }
        assert(m.subrange(0, cell@.len() as int) =~= m);
        cells.push(shown);
    }
    Ok(cells)
}

/// Whether event `e` overlaps the day view of day number `day`.
pub open spec fn on_day(day: int) -> spec_fn(Event) -> bool {
    |e: Event| overlaps(e.timespan, day_window_spec(day))
}

/// The events that overlap the day view of day number `day`, in input order.
pub fn get_day_events(events: &Vec<Event>, day: i32) -> (r: Vec<Event>)
    ensures
        r@ == events@.filter(on_day(day as int)),
{
    let w = day_window(day);
    let mut shown: Vec<Event> = Vec::new();
    for i in 0..events.len()
        invariant
            w == day_window_spec(day as int),
            w.well_formed(),
            shown@ == events@.subrange(0, i as int).filter(on_day(day as int)),
    {
        proof {
            reveal(Seq::filter);
            assert(events@.subrange(0, i + 1).drop_last() =~= events@.subrange(0, i as int));
        }
        let e = &events[i];
        if e.timespan.end >= w.start_inclusive && e.timespan.start <= w.end_exclusive {
            shown.push(e.duplicate());
        }
    }
    assert(events@.subrange(0, events@.len() as int) =~= events@);
    shown
}

} // verus!
