//! The date value, the meaning of a whole date string, and the top-level
//! parse that realises it.

use vstd::prelude::*;
use vstd::string::{StrSliceExecFns, StringExecFns};
use crate::chars::str_eq;
use crate::day::{day_fits, day_number, day_suffix, leap_ok, parse_day, postfix_ok};
use crate::error::ParseDateError;
use crate::month::{parse_month, spec_parse_month};
use crate::tokens::{tokenize, tokens_of};
use crate::year::{parse_year, spec_parse_year};

verus! {

/// A parsed date. A value of this type is only ever built by [`Date::parse`],
/// which guarantees that the day exists in the month and that February 29
/// only appears in leap years.
#[derive(Debug, PartialEq, Eq, Structural, Clone, Copy)]
pub struct Date {
    pub(crate) day: u8,
    pub(crate) month: u8,
    pub(crate) year: i32,
}

/// What a date string denotes: a date, or the first reason the string is
/// rejected, with the offending text or numbers. This mirrors
/// [`ParseDateError`] at the level of character sequences.
pub enum DateOutcome {
    Parsed { day: int, month: int, year: int },
    BadTokenCount(Seq<char>),
    BadYear(Seq<char>),
    BadPreposition(Seq<char>),
    BadMonth(Seq<char>),
    BadDayNumber(Seq<char>),
    BadDayOfMonth(int, int),
    BadPostfix(int, Seq<char>),
    BadLeapDay(int),
}

/// The outcome a returned error stands for.
pub open spec fn err_view(e: ParseDateError) -> DateOutcome {
    match e {
        ParseDateError::MalformedDateString(t) => DateOutcome::BadTokenCount(t@),
        ParseDateError::MalformedYear(t) => DateOutcome::BadYear(t@),
        ParseDateError::UnknownPreposition(t) => DateOutcome::BadPreposition(t@),
        ParseDateError::UnknownMonth(t) => DateOutcome::BadMonth(t@),
        ParseDateError::MalformedDay(t) => DateOutcome::BadDayNumber(t@),
        ParseDateError::DayDoesNotFitInMonth(d, m) => DateOutcome::BadDayOfMonth(
            d as int,
            m as int,
        ),
        ParseDateError::InvalidDayPostfix(d, s) => DateOutcome::BadPostfix(d as int, s@),
        ParseDateError::NonLeapYear(y) => DateOutcome::BadLeapDay(y as int),
    }
}

/// The meaning of a date string. The stages run in a fixed order — token
/// count, year, preposition, month, day number, day range, suffix, leap
/// rule — and the first failing stage decides the outcome.
pub open spec fn spec_parse(s: Seq<char>) -> DateOutcome {
    let toks = tokens_of(s);
    if toks.len() != 4 {
        DateOutcome::BadTokenCount(s)
    } else if spec_parse_year(toks[3]) is None {
        DateOutcome::BadYear(toks[3])
    } else {
        let y = spec_parse_year(toks[3])->0;
        if toks[1] != "of"@ {
            DateOutcome::BadPreposition(toks[1])
        } else if spec_parse_month(toks[2]) is None {
            DateOutcome::BadMonth(toks[2])
        } else {
            let m = spec_parse_month(toks[2])->0;
            if day_number(toks[0]) is None {
                DateOutcome::BadDayNumber(toks[0])
            } else {
                let d = day_number(toks[0])->0;
                if !day_fits(d, m) {
                    DateOutcome::BadDayOfMonth(d, m)
                } else if !postfix_ok(d, day_suffix(toks[0])) {
                    DateOutcome::BadPostfix(d, day_suffix(toks[0]))
                } else if !leap_ok(d, m, y) {
                    DateOutcome::BadLeapDay(y)
                } else {
                    DateOutcome::Parsed { day: d, month: m, year: y }
                }
            }
        }
    }
}

/// Any input with a token count other than four is rejected as a malformed
/// date string, before any other stage runs.
pub proof fn lemma_wrong_token_count_is_malformed(s: Seq<char>)
    requires
        tokens_of(s).len() != 4,
    ensures
        spec_parse(s) == DateOutcome::BadTokenCount(s),
{
}

/// Accepts exactly the literal `"of"`, rejecting any other connective with
/// `UnknownPreposition` carrying the token.
pub fn parse_preposition(input: &str) -> (r: Result<(), ParseDateError>)
    ensures
        match r {
            Ok(u) => input@ == "of"@,
            Err(e) => {
                &&& input@ != "of"@
                &&& e matches ParseDateError::UnknownPreposition(t) && t@ == input@
            },
        },
{
    if str_eq(input, "of") {
        Ok(())
    } else {
        Err(ParseDateError::UnknownPreposition(String::from_str(input)))
    }
}

impl Date {
    /// The day field, as a mathematical integer.
    pub closed spec fn spec_day(&self) -> int {
        self.day as int
    }

    /// The month field, as a mathematical integer.
    pub closed spec fn spec_month(&self) -> int {
        self.month as int
    }

    /// The year field, as a mathematical integer.
    pub closed spec fn spec_year(&self) -> int {
        self.year as int
    }

    /// Parses `"<day><suffix> of <MonthName> <year>"` into a date, or
    /// reports the first failure in stage order: tokenizing, year,
    /// preposition, month, day.
    pub fn parse(input: &str) -> (r: Result<Date, ParseDateError>)
        ensures
            match r {
                Ok(d) => spec_parse(input@) == (DateOutcome::Parsed {
                    day: d.spec_day(),
                    month: d.spec_month(),
                    year: d.spec_year(),
                }),
                Err(e) => spec_parse(input@) == err_view(e),
            },
    {
        let (day_str, preposition, month_str, year_str) = match tokenize(input) {
            Ok(toks) => toks,
            Err(e) => {
                return Err(e);
            },
        };
        let year = match parse_year(year_str.as_str()) {
            Ok(y) => y,
            Err(e) => {
                return Err(e);
            },
        };
        match parse_preposition(preposition.as_str()) {
            Ok(u) => {},
            Err(e) => {
                return Err(e);
            },
        }
        let month = match parse_month(month_str.as_str()) {
            Ok(m) => m,
            Err(e) => {
                return Err(e);
            },
        };
        let day = match parse_day(day_str.as_str(), month, year) {
            Ok(d) => d,
            Err(e) => {
                return Err(e);
            },
        };
        Ok(Date { day, month, year })
    }

    /// Writes the date back in the canonical format
    /// `"<day><suffix> of <monthname> <year>"`.
    pub fn to_canonical_string(&self) -> (r: String)
        ensures
            r@ == crate::canonical::canonical_text(
                self.spec_day(),
                self.spec_month(),
                self.spec_year(),
            ),
    {
        crate::canonical::render_canonical(self.day, self.month, self.year)
    }

    /// The day of the month, 1 through 31.
    pub fn get_day(&self) -> (r: u8)
        ensures
            r as int == self.spec_day(),
    {
        self.day
    }

    /// The month's number, 1 through 12.
    pub fn get_month(&self) -> (r: u8)
        ensures
            r as int == self.spec_month(),
    {
        self.month
    }

    /// The year, negative for years before the common era.
    pub fn get_year(&self) -> (r: i32)
        ensures
            r as int == self.spec_year(),
    {
        self.year
    }
}

impl core::str::FromStr for Date {
    type Err = ParseDateError;

    fn from_str(input: &str) -> Result<Self, Self::Err> {
        Date::parse(input)
    }
}

} // verus!
