//! Errors reported by the schedule operations.

use vstd::prelude::*;

verus! {

/// Why a schedule operation was rejected. No operation that returns one of
/// these mutates the store.
#[derive(Clone, Copy, Debug, PartialEq, Eq, Structural)]
pub enum ScheduleError {
    /// A time string did not match the strict `HH:MM` 24-hour format.
    ParseError,
    /// No entries exist under the requested date.
    NotFound,
    /// The entry index lies outside the date's sequence.
    InvalidIndex,
}

impl ScheduleError {
    /// A human-readable description of the error.
    pub fn message(&self) -> (r: String)
        ensures
            *self is ParseError ==> r@ == "invalid time format, expected HH:MM"@,
            *self is NotFound ==> r@ == "no medications found for the date"@,
            *self is InvalidIndex ==> r@ == "invalid medication index"@,
    {
        match self {
            ScheduleError::ParseError => String::from_str("invalid time format, expected HH:MM"),
            ScheduleError::NotFound => String::from_str("no medications found for the date"),
            ScheduleError::InvalidIndex => String::from_str("invalid medication index"),
        }
    }
}

} // verus!
