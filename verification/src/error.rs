//! The failures that building a recurrence or a calendar value can report.
use vstd::prelude::*;

verus! {

/// Why a value was rejected.
#[derive(Clone, Copy, Debug, PartialEq, Eq, Structural)]
pub enum ScheduleError {
    /// A time of day was not written as hours, a colon and minutes.
    ParseError,
    /// An hour, minute, day or month lies outside its calendar range, or a
    /// date lies beyond the instants that can be counted.
    RangeError,
    /// `and` was asked to combine recurrences that do not both advance by a
    /// fixed number of seconds.
    InvalidRecurrenceCombination,
    /// A month outside 1 to 12 was given where a month was needed.
    InvalidCalendarField,
}

} // verus!
