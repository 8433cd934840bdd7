//! Calendar view computations for an agenda: which days or time rows a month
//! or day view shows, and where each task or event lands in that grid.
//!
//! Dates are day numbers counted from 1970-01-01 (day 0) in the proleptic
//! Gregorian calendar; instants are UTC seconds from 1970-01-01T00:00:00.

pub mod calendar;
pub mod window;
pub mod model;
pub mod placement;
pub mod views;
