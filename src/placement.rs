//! Which records a view shows, and in which cells.

use vstd::prelude::*;

use crate::model::{Schedulable, Timespan};
use crate::window::{ViewWindow, SECONDS_PER_DAY, SECONDS_PER_ROW};

verus! {

/// The closed overlap test: the record ends no earlier than the window starts
/// and starts no later than the window ends.
pub open spec fn overlaps(s: Timespan, w: ViewWindow) -> bool {
    s.end >= w.start_inclusive && s.start <= w.end_exclusive
}

/// `t` moved into `[w.start_inclusive, w.end_exclusive]`.
pub open spec fn clamp_to(t: int, w: ViewWindow) -> int {
    if t < w.start_inclusive {
        w.start_inclusive as int
    } else if t > w.end_exclusive {
        w.end_exclusive as int
    } else {
        t
    }
}

/// The day cell of a month view that holds instant `t`, kept within the
/// window's cells.
pub open spec fn day_index(t: int, w: ViewWindow) -> int {
    let k = (clamp_to(t, w) - w.start_inclusive) / (SECONDS_PER_DAY as int);
    if k > w.bucket_count - 1 {
        w.bucket_count - 1
    } else {
        k
    }
}

/// Whether a record with span `s` is shown in day cell `b` of month view `w`:
/// it overlaps the window and `b` lies between the cells of its clamped start
/// and end.
pub open spec fn in_day_cell(s: Timespan, w: ViewWindow, b: int) -> bool {
    overlaps(s, w) && day_index(s.start as int, w) <= b <= day_index(s.end as int, w)
}

/// The positions `i < n` at which `pred` holds, in increasing order.
pub open spec fn indices_where(n: nat, pred: spec_fn(int) -> bool) -> Seq<usize>
    decreases n,
{
    if n == 0 {
        Seq::empty()
    } else {
        let prev = indices_where((n - 1) as nat, pred);
        if pred(n - 1) {
            prev.push((n - 1) as usize)
        } else {
            prev
        }
    }
}

/// The positions of the records shown in day cell `b`, in input order.
pub open spec fn cell_members<T: Schedulable>(records: Seq<T>, w: ViewWindow, b: int) -> Seq<
    usize,
> {
    indices_where(records.len(), |i: int| in_day_cell(records[i].span(), w, b))
}

/// A position is listed exactly when it lies below `n` and `pred` holds of it.
pub proof fn lemma_indices_where(n: nat, pred: spec_fn(int) -> bool, i: usize)
    requires
        n <= usize::MAX + 1,
    ensures
        indices_where(n, pred).contains(i) <==> (i < n && pred(i as int)),
    decreases n,
{
    if n > 0 {
        let prev = indices_where((n - 1) as nat, pred);
        lemma_indices_where((n - 1) as nat, pred, i);
        if pred(n - 1) {
            let s = prev.push((n - 1) as usize);
            assert(s.contains(i) <==> (prev.contains(i) || i == n - 1)) by {
                if s.contains(i) {
                    let k = choose|k: int| 0 <= k < s.len() && s[k] == i;
                    if k < prev.len() {
                        assert(prev[k] == i);
                    }
                }
                if i == n - 1 {
                    assert(s[prev.len() as int] == i);
                }
                if prev.contains(i) {
                    let k = choose|k: int| 0 <= k < prev.len() && prev[k] == i;
                    assert(s[k] == i);
                }
            }
        }
    }
}

/// `t` moved into the window.
pub fn clamp_time(t: i64, w: &ViewWindow) -> (r: i64)
    requires
        w.well_formed(),
    ensures
        r == clamp_to(t as int, *w),
{
    if t < w.start_inclusive {
        w.start_inclusive
    } else if t > w.end_exclusive {
        w.end_exclusive
    } else {
        t
    }
}

/// Seconds from the start of the window to `t` moved into it.
fn offset_in_window(t: i64, w: &ViewWindow) -> (r: u64)
    requires
        w.well_formed(),
    ensures
        r == clamp_to(t as int, *w) - w.start_inclusive,
{
    let c = clamp_time(t, w);
    (c as i128 - w.start_inclusive as i128) as u64
}

/// The day cell of month view `w` that holds instant `t`.
pub fn day_index_of(t: i64, w: &ViewWindow) -> (r: usize)
    requires
        w.well_formed(),
        w.bucket_count >= 1,
    ensures
        r == day_index(t as int, *w),
{
    let k = offset_in_window(t, w) / (SECONDS_PER_DAY as u64);
    let last = (w.bucket_count - 1) as u64;
    if k > last {
        last as usize
    } else {
        k as usize
    }
}

/// `r` gives the first and the last day cell of month view `w` that show a
/// record with span `s`, or `None` when the record lies outside the window.
pub open spec fn range_matches(s: Timespan, w: ViewWindow, r: Option<(usize, usize)>) -> bool {
    &&& r.is_some() == overlaps(s, w)
    &&& r matches Some((lo, hi)) ==> lo == day_index(s.start as int, w) && hi == day_index(
        s.end as int,
        w,
    )
}

/// The first and the last day cell of month view `w` that show a record with
/// span `s`; `None` when the record lies outside the window.
pub fn month_day_range(s: Timespan, w: &ViewWindow) -> (r: Option<(usize, usize)>)
    requires
        w.well_formed(),
        w.bucket_count >= 1,
    ensures
        r.is_some() == overlaps(s, *w),
        r matches Some((lo, hi)) ==> lo == day_index(s.start as int, *w) && hi == day_index(
            s.end as int,
            *w,
        ),
{
    if s.end >= w.start_inclusive && s.start <= w.end_exclusive {
        Some((day_index_of(s.start, w), day_index_of(s.end, w)))
    } else {
        None
    }
}

/// The records of a month view, cell by cell: cell `b` lists, in input
/// order, the positions of the records that overlap the window and whose
/// clamped span reaches from at most cell `b` to at least cell `b`.
pub fn place_records<T: Schedulable>(records: &Vec<T>, w: &ViewWindow) -> (r: Vec<Vec<usize>>)
    requires
        w.well_formed(),
    ensures
        r@.len() == w.bucket_count,
        forall|b: int| 0 <= b < w.bucket_count ==> #[trigger] r@[b]@ == cell_members(records@, *w, b),
{
    let mut cells: Vec<Vec<usize>> = Vec::new();
    if w.bucket_count == 0 {
        return cells;
    }
    let n = records.len();
    let mut ranges: Vec<Option<(usize, usize)>> = Vec::new();
    for i in 0..n
        invariant
            n == records@.len(),
            w.well_formed(),
            w.bucket_count >= 1,
            ranges@.len() == i,
            forall|j: int|
                0 <= j < i ==> #[trigger] range_matches(records@[j].span(), *w, ranges@[j]),
    {
        ranges.push(month_day_range(records[i].timespan(), w));
    }
    for b in 0..w.bucket_count
        invariant
            n == records@.len(),
            ranges@.len() == n,
            cells@.len() == b,
            forall|j: int|
                0 <= j < n ==> #[trigger] range_matches(records@[j].span(), *w, ranges@[j]),
            forall|c: int| 0 <= c < b ==> #[trigger] cells@[c]@ == cell_members(records@, *w, c),
    {
        let ghost pred = |i: int| in_day_cell(records@[i].span(), *w, b as int);
        let mut members: Vec<usize> = Vec::new();
        for i in 0..n
            invariant
                n == records@.len(),
                ranges@.len() == n,
                forall|j: int|
                    0 <= j < n ==> #[trigger] range_matches(records@[j].span(), *w, ranges@[j]),
                pred == (|i: int| in_day_cell(records@[i].span(), *w, b as int)),
                members@ == indices_where(i as nat, pred),
        {
            assert(range_matches(records@[i as int].span(), *w, ranges@[i as int]));
            match ranges[i] {
                Some((lo, hi)) => {
                    if lo <= b && b <= hi {
                        members.push(i);
                    }
                },
                None => {},
            }
        }
        cells.push(members);
    }
    cells
}

/// A record that ends before a month view starts is in none of its cells.
pub proof fn lemma_before_window_in_no_cell<T: Schedulable>(
    records: Seq<T>,
    w: ViewWindow,
    i: usize,
)
    requires
        i < records.len() <= usize::MAX + 1,
        records[i as int].span().end < w.start_inclusive,
    ensures
        forall|b: int| !(#[trigger] cell_members(records, w, b)).contains(i),
{
    assert forall|b: int| !(#[trigger] cell_members(records, w, b)).contains(i) by {
        lemma_indices_where(
            records.len(),
            |j: int| in_day_cell(records[j].span(), w, b),
            i,
        );
    }
}

/// A record that starts in day cell `k` of a month view and ends in cell
/// `k + 2` (three whole days inside the window) is in exactly the three
/// consecutive cells `k`, `k + 1` and `k + 2`.
pub proof fn lemma_three_days_in_three_cells<T: Schedulable>(
    records: Seq<T>,
    w: ViewWindow,
    i: usize,
    k: int,
)
    requires
        i < records.len() <= usize::MAX + 1,
        w.end_exclusive == w.start_inclusive + w.bucket_count * SECONDS_PER_DAY,
        0 <= k,
        k + 2 < w.bucket_count,
        w.start_inclusive + k * SECONDS_PER_DAY <= records[i as int].span().start
            < w.start_inclusive + (k + 1) * SECONDS_PER_DAY,
        w.start_inclusive + (k + 2) * SECONDS_PER_DAY <= records[i as int].span().end
            < w.start_inclusive + (k + 3) * SECONDS_PER_DAY,
    ensures
        forall|b: int|
            #![trigger cell_members(records, w, b)]
            cell_members(records, w, b).contains(i) <==> k <= b <= k + 2,
{
    let s = records[i as int].span();
    let x = s.start - w.start_inclusive;
    let y = s.end - w.start_inclusive;
    assert(x / 86400 == k) by (nonlinear_arith)
        requires
            k * 86400 <= x < (k + 1) * 86400,
    ;
    assert(y / 86400 == k + 2) by (nonlinear_arith)
        requires
            (k + 2) * 86400 <= y < (k + 3) * 86400,
    ;
    assert(k * SECONDS_PER_DAY >= 0) by (nonlinear_arith)
        requires
            k >= 0,
    ;
    assert((k + 3) * SECONDS_PER_DAY <= w.bucket_count * SECONDS_PER_DAY) by (nonlinear_arith)
        requires
            k + 3 <= w.bucket_count,
    ;
    assert(day_index(s.start as int, w) == k);
    assert(day_index(s.end as int, w) == k + 2);
    assert forall|b: int|
        #![trigger cell_members(records, w, b)]
        cell_members(records, w, b).contains(i) <==> k <= b <= k + 2 by {
        lemma_indices_where(
            records.len(),
            |j: int| in_day_cell(records[j].span(), w, b),
            i,
        );
    }
}

/// The row of a day view that holds instant `t`, kept within
/// `0..=bucket_count`.
pub open spec fn row_index(t: int, w: ViewWindow) -> int {
    let k = (clamp_to(t, w) - w.start_inclusive) / (SECONDS_PER_ROW as int);
    if k > w.bucket_count {
        w.bucket_count as int
    } else {
        k
    }
}

/// Whether a day view shows a record with span `s`: it overlaps the window,
/// and once clipped to the window it does not end before it starts.
pub open spec fn shown_in_day(s: Timespan, w: ViewWindow) -> bool {
    overlaps(s, w) && clamp_to(s.start as int, w) <= clamp_to(s.end as int, w)
}

/// The rows that a record occupies in a day view.
#[derive(Clone, Copy, Debug, PartialEq, Eq, Structural)]
pub struct RowPlacement {
    /// The record's position in the input.
    pub index: usize,
    pub start_row: usize,
    pub end_row: usize,
}

/// The placements of the shown records of a day view, in input order.
pub open spec fn day_placements<T: Schedulable>(records: Seq<T>, w: ViewWindow) -> Seq<
    RowPlacement,
>
    decreases records.len(),
{
    if records.len() == 0 {
        Seq::empty()
    } else {
        let prev = day_placements(records.drop_last(), w);
        let s = records.last().span();
        if shown_in_day(s, w) {
            prev.push(
                RowPlacement {
                    index: (records.len() - 1) as usize,
                    start_row: row_index(s.start as int, w) as usize,
                    end_row: row_index(s.end as int, w) as usize,
                },
            )
        } else {
            prev
        }
    }
}

/// The row of day view `w` that holds instant `t`.
pub fn row_index_of(t: i64, w: &ViewWindow) -> (r: usize)
    requires
        w.well_formed(),
    ensures
        r == row_index(t as int, *w),
{
    let k = offset_in_window(t, w) / (SECONDS_PER_ROW as u64);
    if k > w.bucket_count as u64 {
        w.bucket_count
    } else {
        k as usize
    }
}

/// The first and the last row of day view `w` that a record with span `s`
/// occupies, its span clipped to the window; `None` when the view does not
/// show it.
pub fn day_rows(s: Timespan, w: &ViewWindow) -> (r: Option<(usize, usize)>)
    requires
        w.well_formed(),
    ensures
        r.is_some() == shown_in_day(s, *w),
        r matches Some((first, last)) ==> first == row_index(s.start as int, *w) && last
            == row_index(s.end as int, *w),
{
    if s.end < w.start_inclusive || s.start > w.end_exclusive {
        return None;
    }
    let start = clamp_time(s.start, w);
    let end = clamp_time(s.end, w);
    if end < start {
        return None;
    }
    Some((row_index_of(s.start, w), row_index_of(s.end, w)))
}

/// The rows of the records that day view `w` shows, in input order.
pub fn place_in_day<T: Schedulable>(records: &Vec<T>, w: &ViewWindow) -> (r: Vec<RowPlacement>)
    requires
        w.well_formed(),
    ensures
        r@ == day_placements(records@, *w),
{
    let mut placed: Vec<RowPlacement> = Vec::new();
    let n = records.len();
    for i in 0..n
        invariant
            n == records@.len(),
            w.well_formed(),
            placed@ == day_placements(records@.subrange(0, i as int), *w),
    {
        let ghost prefix = records@.subrange(0, i + 1);
        assert(prefix.drop_last() =~= records@.subrange(0, i as int));
        match day_rows(records[i].timespan(), w) {
            Some((first, last)) => {
                placed.push(RowPlacement { index: i, start_row: first, end_row: last });
            },
            None => {},
        }
    }
    assert(records@.subrange(0, n as int) =~= records@);
    placed
}

/// A day-view record that starts before the window and ends inside it is
/// shown from the first row, 0.
pub proof fn lemma_clipped_start(s: Timespan, w: ViewWindow)
    requires
        s.start < w.start_inclusive <= s.end <= w.end_exclusive,
    ensures
        shown_in_day(s, w),
        row_index(s.start as int, w) == 0,
        0 <= row_index(s.end as int, w) <= w.bucket_count,
{
}

} // verus!
