//! The parse failure taxonomy: one variant per way an input can be rejected,
//! each carrying the offending text or numbers.

use vstd::prelude::*;

verus! {

/// Why a date string was rejected.
#[derive(Debug, PartialEq, Eq)]
pub enum ParseDateError {
    /// The input did not split into exactly four tokens; carries the input.
    MalformedDateString(String),
    /// The month token matched no month name; carries the token as given.
    UnknownMonth(String),
    /// The connective token was not the literal `"of"`; carries the token.
    UnknownPreposition(String),
    /// The day token had no parseable numeric prefix; carries the token.
    MalformedDay(String),
    /// The day is outside the month's range; carries the day and the month.
    DayDoesNotFitInMonth(u8, u8),
    /// The ordinal suffix does not fit the day; carries the day and suffix.
    InvalidDayPostfix(u8, String),
    /// February 29 was asked of a common year; carries the year.
    NonLeapYear(i32),
    /// The year token was not a signed decimal number in range; carries it.
    MalformedYear(String),
}

} // verus!
