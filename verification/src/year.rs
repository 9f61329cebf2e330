//! Parsing the year token: a base-ten signed integer, negative years allowed.

use vstd::prelude::*;
use vstd::string::{StrSliceExecFns, StringExecFns};
use crate::chars::{is_digit, is_digit_char};
use crate::digits::{all_digits, digits_val, lemma_digits_val_push, lemma_digits_val_prefix};
use crate::error::ParseDateError;

verus! {

/// The digit part of a year token: everything after an optional leading sign.
pub open spec fn year_digits(s: Seq<char>) -> Seq<char> {
    if s.len() > 0 && (s[0] == '-' || s[0] == '+') {
        s.drop_first()
    } else {
        s
    }
}

/// The sign a year token denotes: negative exactly under a leading `'-'`.
pub open spec fn year_sign(s: Seq<char>) -> int {
    if s.len() > 0 && s[0] == '-' {
        -1
    } else {
        1
    }
}

/// The year a token denotes: after the optional sign there must be at least
/// one character, all of them digits, and the signed value must fit a 32-bit
/// signed integer; otherwise the token denotes no year.
pub open spec fn spec_parse_year(s: Seq<char>) -> Option<int> {
    let digs = year_digits(s);
    let val = year_sign(s) * digits_val(digs);
    if digs.len() >= 1 && all_digits(digs) && i32::MIN <= val <= i32::MAX {
        Some(val)
    } else {
        None
    }
}

/// Parses the year token as a base-ten signed integer, or rejects it with
/// `MalformedYear` carrying the token.
pub fn parse_year(input: &str) -> (r: Result<i32, ParseDateError>)
    ensures
        match r {
            Ok(y) => spec_parse_year(input@) == Some(y as int),
            Err(e) => {
                &&& spec_parse_year(input@) is None
                &&& e matches ParseDateError::MalformedYear(t) && t@ == input@
            },
        },
{
    let n = input.unicode_len();
    let mut start: usize = 0;
    let mut neg = false;
    if n > 0 {
        let c0 = input.get_char(0);
        if c0 == '-' || c0 == '+' {
            start = 1;
            neg = c0 == '-';
        }
    }
    proof {
        if start == 1 {
            assert(year_digits(input@) =~= input@.subrange(1, n as int));
        } else {
            assert(year_digits(input@) =~= input@.subrange(0, n as int));
        }
    }
    let ghost digs = year_digits(input@);
    if start >= n {
        return Err(ParseDateError::MalformedYear(String::from_str(input)));
    }
    let mut acc: u64 = 0;
    let mut i = start;
    while i < n
        invariant
            n == input@.len(),
            start <= i <= n,
            digs == year_digits(input@),
            digs == input@.subrange(start as int, n as int),
            forall|k: int| start <= k < i ==> is_digit(input@[k]),
            acc as int == digits_val(input@.subrange(start as int, i as int)),
            acc <= 0x8000_0000,
        decreases n - i,
    {
        let c = input.get_char(i);
        if !is_digit_char(c) {
            proof {
                assert(!is_digit(digs[i - start]));
                assert(!all_digits(digs));
                assert(spec_parse_year(input@) is None);
            }
            return Err(ParseDateError::MalformedYear(String::from_str(input)));
        }
        let d = (c as u32 - 48) as u64;
        proof {
            assert(input@.subrange(start as int, i + 1) =~= input@.subrange(
                start as int,
                i as int,
            ).push(input@[i as int]));
            lemma_digits_val_push(input@.subrange(start as int, i as int), input@[i as int]);
        }
        acc = acc * 10 + d;
        i += 1;
        if acc > 0x8000_0000 {
            proof {
                if all_digits(digs) {
                    assert(digs.subrange(0, i - start) =~= input@.subrange(start as int, i as int));
                    lemma_digits_val_prefix(digs, i - start);
                    assert(digits_val(digs) > 0x8000_0000);
                }
                assert(spec_parse_year(input@) is None);
            }
            return Err(ParseDateError::MalformedYear(String::from_str(input)));
        }
    }
    proof {
        assert(input@.subrange(start as int, n as int) == digs);
        assert(forall|k: int| 0 <= k < digs.len() ==> is_digit(#[trigger] digs[k]));
    }
    if neg {
        Ok((-(acc as i64)) as i32)
    } else {
        if acc > 0x7fff_ffff {
            return Err(ParseDateError::MalformedYear(String::from_str(input)));
        }
        Ok(acc as i32)
    }
}

} // verus!
