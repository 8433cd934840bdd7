//! Tasks and events, the records that a calendar view places.

use vstd::prelude::*;

verus! {

/// A span of time `[start, end]` in UTC seconds; callers keep
/// `start <= end`.
#[derive(Clone, Copy, Debug, PartialEq, Eq, Structural)]
pub struct Timespan {
    pub start: i64,
    pub end: i64,
}

impl Timespan {
    pub fn new(start: i64, end: i64) -> (r: Timespan)
        ensures
            r.start == start,
            r.end == end,
    {
        Timespan { start, end }
    }
}

/// A record with a place in time, which a view can show.
pub trait Schedulable {
    /// When the record takes place.
    spec fn span(&self) -> Timespan;

    fn timespan(&self) -> (r: Timespan)
        ensures
            r == self.span(),
    ;
}

/// Something that is due in a span of time and can be completed.
#[derive(Debug)]
pub struct Task {
    pub name: String,
    pub description: String,
    pub timespan: Timespan,
    pub category: u128,
    pub completed: bool,
    pub user: u128,
    pub uuid: u128,
}

/// Something that takes place in a span of time.
#[derive(Debug)]
pub struct Event {
    pub name: String,
    pub description: String,
    pub timespan: Timespan,
    pub category: u128,
    pub user: u128,
    pub uuid: u128,
}

impl Event {
    /// A copy of the event, field for field.
    pub fn duplicate(&self) -> (r: Event)
        ensures
            r == *self,
    {
        Event {
            name: self.name.clone(),
            description: self.description.clone(),
            timespan: self.timespan,
            category: self.category,
            user: self.user,
            uuid: self.uuid,
        }
    }
}

impl Schedulable for Task {
    open spec fn span(&self) -> Timespan {
        self.timespan
    }

    fn timespan(&self) -> (r: Timespan) {
        self.timespan
    }
}

impl Schedulable for Event {
    open spec fn span(&self) -> Timespan {
        self.timespan
    }

    fn timespan(&self) -> (r: Timespan) {
        self.timespan
    }
}

} // verus!
