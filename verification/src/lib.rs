//! A parser for dates written as `"<day><ordinal suffix> of <MonthName> <year>"`,
//! for example `"24th of May 1990"`.
//!
//! The input is split into four whitespace-separated tokens; the year token is
//! read as a signed decimal number, the connective must be the literal `"of"`,
//! the month token is matched case-insensitively against the twelve English
//! month names, and the day token must carry the ordinal suffix that English
//! assigns to its numeric value and fit in the named month (February 29 only
//! on leap years). Each failure is reported as a distinct [`ParseDateError`]
//! variant carrying the offending text or numbers.

pub mod canonical;
pub mod chars;
pub mod date;
pub mod day;
pub mod digits;
pub mod error;
pub mod month;
pub mod tokens;
pub mod year;

pub use date::{parse_preposition, Date};
pub use day::{is_leap_year, parse_day, validate_day_month, validate_day_postfix,
    validate_leap_year};
pub use error::ParseDateError;
pub use month::parse_month;
pub use tokens::tokenize;
pub use year::parse_year;
