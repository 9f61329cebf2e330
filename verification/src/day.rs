//! Parsing and validating the day token: its numeric prefix, its ordinal
//! suffix, the month's day range, and the leap-year rule for February 29.

use vstd::prelude::*;
use vstd::string::{StrSliceExecFns, StringExecFns};
use crate::chars::{is_digit, is_digit_char};
use crate::digits::{all_digits, digits_val, lemma_digits_val_push, lemma_digits_val_prefix};
use crate::error::ParseDateError;

verus! {

/// The length of the maximal run of decimal digits at the start of `s`.
pub open spec fn digit_prefix_len(s: Seq<char>) -> int
    decreases s.len(),
{
    if s.len() == 0 {
        0
    } else if !is_digit(s[0]) {
        0
    } else {
        1 + digit_prefix_len(s.drop_first())
    }
}

pub proof fn lemma_digit_prefix_at(s: Seq<char>, k: int)
    requires
        0 <= k <= s.len(),
        forall|i: int| 0 <= i < k ==> is_digit(s[i]),
        k < s.len() ==> !is_digit(s[k]),
    ensures
        digit_prefix_len(s) == k,
    decreases s.len(),
{
    if k > 0 {
        let t = s.drop_first();
        assert(forall|i: int| 0 <= i < k - 1 ==> is_digit(#[trigger] t[i]));
        assert(k - 1 < t.len() ==> !is_digit(t[k - 1]));
        lemma_digit_prefix_at(t, k - 1);
    }
}

/// The number a day token starts with: the value of its maximal digit
/// prefix, if that prefix is nonempty and its value fits in a byte.
pub open spec fn day_number(s: Seq<char>) -> Option<int> {
    let k = digit_prefix_len(s);
    if k == 0 {
        None
    } else if digits_val(s.subrange(0, k)) > 255 {
        None
    } else {
        Some(digits_val(s.subrange(0, k)))
    }
}

/// What follows the digit prefix of a day token.
pub open spec fn day_suffix(s: Seq<char>) -> Seq<char> {
    s.subrange(digit_prefix_len(s), s.len() as int)
}

/// The day `d` exists in month `m`: months are numbered 1 through 12, and
/// February admits day 29 here, pending the leap-year check.
pub open spec fn day_fits(d: int, m: int) -> bool {
    ||| (1 <= d <= 31 && (m == 1 || m == 3 || m == 5 || m == 7 || m == 8 || m == 10 || m == 12))
    ||| (1 <= d <= 30 && (m == 4 || m == 6 || m == 9 || m == 11))
    ||| (1 <= d <= 29 && m == 2)
}

/// The suffix is the ordinal suffix English gives the day: `st` after 1, 21,
/// 31; `nd` after 2, 22; `rd` after 3, 23; `th` after 4 through 20 and 24
/// through 30.
pub open spec fn postfix_ok(d: int, suf: Seq<char>) -> bool {
    ||| ((d == 1 || d == 21 || d == 31) && suf == "st"@)
    ||| ((d == 2 || d == 22) && suf == "nd"@)
    ||| ((d == 3 || d == 23) && suf == "rd"@)
    ||| (((4 <= d <= 20) || (24 <= d <= 30)) && suf == "th"@)
}

/// The Gregorian leap rule on the year's magnitude: divisible by four and
/// not by one hundred, or divisible by four hundred.
pub open spec fn spec_is_leap(y: int) -> bool {
    let a = if y < 0 { -y } else { y };
    (a % 4 == 0 && a % 100 != 0) || a % 400 == 0
}

/// Day `d` of month `m` in year `y` passes the leap check: only February 29
/// demands a leap year.
pub open spec fn leap_ok(d: int, m: int, y: int) -> bool {
    !(m == 2 && d == 29 && !spec_is_leap(y))
}

/// Whether `year` is a Gregorian leap year.
pub fn is_leap_year(year: i32) -> (r: bool)
    ensures
        r == spec_is_leap(year as int),
{
    let a: u64 = if year < 0 {
        (-(year as i64)) as u64
    } else {
        year as u64
    };
    (a % 4 == 0 && a % 100 != 0) || a % 400 == 0
}

/// Accepts the day unless it is February 29 of a common year, which is
/// rejected with `NonLeapYear` carrying the year.
pub fn validate_leap_year(day: u8, month: u8, year: i32) -> (r: Result<(), ParseDateError>)
    ensures
        match r {
            Ok(u) => leap_ok(day as int, month as int, year as int),
            Err(e) => {
                &&& !leap_ok(day as int, month as int, year as int)
                &&& e matches ParseDateError::NonLeapYear(y) && y == year
            },
        },
{
    if !is_leap_year(year) && month == 2 && day == 29 {
        Err(ParseDateError::NonLeapYear(year))
    } else {
        Ok(())
    }
}

/// Accepts a day that exists in the month, February 29 included, and rejects
/// any other with `DayDoesNotFitInMonth` carrying the day and the month.
pub fn validate_day_month(day: u8, month: u8) -> (r: Result<(), ParseDateError>)
    ensures
        match r {
            Ok(u) => day_fits(day as int, month as int),
            Err(e) => {
                &&& !day_fits(day as int, month as int)
                &&& e matches ParseDateError::DayDoesNotFitInMonth(d, m) && d == day && m == month
            },
        },
{
    let max: u8 = match month {
        1 | 3 | 5 | 7 | 8 | 10 | 12 => 31,
        4 | 6 | 9 | 11 => 30,
        2 => 29,
        _ => 0,
    };
    if 1 <= day && day <= max {
        Ok(())
    } else {
        Err(ParseDateError::DayDoesNotFitInMonth(day, month))
    }
}

/// Accepts the day's ordinal suffix and rejects a mismatched one with
/// `InvalidDayPostfix` carrying the day and the suffix.
pub fn validate_day_postfix(day: u8, postfix: &str) -> (r: Result<(), ParseDateError>)
    ensures
        match r {
            Ok(u) => postfix_ok(day as int, postfix@),
            Err(e) => {
                &&& !postfix_ok(day as int, postfix@)
                &&& e matches ParseDateError::InvalidDayPostfix(d, s) && d == day && s@ == postfix@
            },
        },
{
    let ok = if day == 1 || day == 21 || day == 31 {
        crate::chars::str_eq(postfix, "st")
    } else if day == 2 || day == 22 {
        crate::chars::str_eq(postfix, "nd")
    } else if day == 3 || day == 23 {
        crate::chars::str_eq(postfix, "rd")
    } else if (4 <= day && day <= 20) || (24 <= day && day <= 30) {
        crate::chars::str_eq(postfix, "th")
    } else {
        false
    };
    if ok {
        Ok(())
    } else {
        Err(ParseDateError::InvalidDayPostfix(day, String::from_str(postfix)))
    }
}

/// Parses the day token against the month and year, in this order: the
/// numeric prefix must parse, the day must exist in the month, the ordinal
/// suffix must agree with the day, and February 29 demands a leap year. The
/// first failed check decides the error.
pub fn parse_day(input: &str, month: u8, year: i32) -> (r: Result<u8, ParseDateError>)
    ensures
        match r {
            Ok(d) => {
                &&& day_number(input@) == Some(d as int)
                &&& day_fits(d as int, month as int)
                &&& postfix_ok(d as int, day_suffix(input@))
                &&& leap_ok(d as int, month as int, year as int)
            },
            Err(e) => match e {
                ParseDateError::MalformedDay(t) => {
                    &&& t@ == input@
                    &&& day_number(input@) is None
                },
                ParseDateError::DayDoesNotFitInMonth(d, m) => {
                    &&& m == month
                    &&& day_number(input@) == Some(d as int)
                    &&& !day_fits(d as int, month as int)
                },
                ParseDateError::InvalidDayPostfix(d, suf) => {
                    &&& day_number(input@) == Some(d as int)
                    &&& day_fits(d as int, month as int)
                    &&& suf@ == day_suffix(input@)
                    &&& !postfix_ok(d as int, day_suffix(input@))
                },
                ParseDateError::NonLeapYear(y) => {
                    &&& y == year
                    &&& day_number(input@) matches Some(d) && day_fits(d, month as int)
                        && postfix_ok(d, day_suffix(input@)) && !leap_ok(
                        d,
                        month as int,
                        year as int,
                    )
                },
                _ => false,
            },
        },
{
    let n = input.unicode_len();
    let mut j: usize = 0;
    let mut stop = false;
    while j < n && !stop
        invariant
            n == input@.len(),
            j <= n,
            forall|k: int| 0 <= k < j ==> is_digit(input@[k]),
            stop ==> j < n && !is_digit(input@[j as int]),
        decreases n - j + if stop { 0int } else { 1 },
    {
        if !is_digit_char(input.get_char(j)) {
            stop = true;
        } else {
            j += 1;
        }
    }
    proof {
        lemma_digit_prefix_at(input@, j as int);
    }
    if j == 0 {
        return Err(ParseDateError::MalformedDay(String::from_str(input)));
    }
    let ghost pre = input@.subrange(0, j as int);
    let mut acc: u32 = 0;
    let mut i: usize = 0;
    while i < j
        invariant
            n == input@.len(),
            0 < j <= n,
            i <= j,
            pre == input@.subrange(0, j as int),
            digit_prefix_len(input@) == j,
            forall|k: int| 0 <= k < j ==> is_digit(input@[k]),
            acc as int == digits_val(input@.subrange(0, i as int)),
            acc <= 255,
        decreases j - i,
    {
        let c = input.get_char(i);
        proof {
            assert(input@.subrange(0, i + 1) =~= input@.subrange(0, i as int).push(
                input@[i as int],
            ));
            lemma_digits_val_push(input@.subrange(0, i as int), input@[i as int]);
        }
        acc = acc * 10 + (c as u32 - 48);
        i += 1;
        if acc > 255 {
            proof {
                assert(all_digits(pre));
                assert(pre.subrange(0, i as int) =~= input@.subrange(0, i as int));
                lemma_digits_val_prefix(pre, i as int);
                assert(day_number(input@) is None);
            }
            return Err(ParseDateError::MalformedDay(String::from_str(input)));
        }
    }
    proof {
        assert(input@.subrange(0, i as int) == pre);
        assert(day_number(input@) == Some(acc as int));
    }
    let day = acc as u8;
    let suffix = input.substring_char(j, n);
    proof {
        assert(suffix@ == day_suffix(input@));
    }
    match validate_day_month(day, month) {
        Ok(u) => {},
        Err(e) => {
            return Err(e);
        },
    }
    match validate_day_postfix(day, suffix) {
        Ok(u) => {},
        Err(e) => {
            return Err(e);
        },
    }
    match validate_leap_year(day, month, year) {
        Ok(u) => {},
        Err(e) => {
            return Err(e);
        },
    }
    Ok(day)
}

} // verus!
