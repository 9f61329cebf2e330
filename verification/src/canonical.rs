//! The canonical text of a date, and the round-trip laws: every valid
//! (day, month, year) triple written in the canonical format parses back to
//! exactly that triple.

use vstd::prelude::*;
use vstd::string::{StrSliceExecFns, StringExecFns};
use crate::chars::{is_digit, is_space};
use crate::date::{spec_parse, DateOutcome};
use crate::day::{day_fits, day_number, day_suffix, leap_ok, lemma_digit_prefix_at, postfix_ok};
use crate::digits::{all_digits, dec_digits, digit_char, lemma_dec_digits};
use crate::month::{lemma_month_name_parses, month_name, spec_parse_month};
use crate::tokens::{
    lemma_tokens_of_join, lemma_tokens_of_whole, no_space, tokens_of,
};
use crate::year::{spec_parse_year, year_digits, year_sign};

verus! {

/// The triple is a real calendar date: the day exists in the month, and
/// February 29 only in a leap year.
pub open spec fn valid_date(d: int, m: int, y: int) -> bool {
    day_fits(d, m) && leap_ok(d, m, y)
}

/// The ordinal suffix English gives day `d`.
pub open spec fn suffix_for(d: int) -> Seq<char> {
    if d == 1 || d == 21 || d == 31 {
        "st"@
    } else if d == 2 || d == 22 {
        "nd"@
    } else if d == 3 || d == 23 {
        "rd"@
    } else {
        "th"@
    }
}

/// The year written in base ten, with a leading minus sign when negative.
pub open spec fn year_text(y: int) -> Seq<char> {
    if y < 0 {
        seq!['-'] + dec_digits(-y)
    } else {
        dec_digits(y)
    }
}

/// The canonical text of a date: day with its suffix, `of`, the month name,
/// and the year, separated by single spaces.
pub open spec fn canonical_text(d: int, m: int, y: int) -> Seq<char> {
    (dec_digits(d) + suffix_for(d)) + seq![' '] + ("of"@ + seq![' '] + (month_name(m) + seq![' ']
        + year_text(y)))
}

proof fn lemma_digits_no_space(s: Seq<char>)
    requires
        all_digits(s),
    ensures
        no_space(s),
{
    assert forall|i: int| 0 <= i < s.len() implies !is_space(s[i]) by {
        assert(is_digit(s[i]));
    }
}

proof fn lemma_suffix_for(d: int)
    ensures
        suffix_for(d).len() == 2,
        no_space(suffix_for(d)),
        !is_digit(suffix_for(d)[0]),
{
    reveal_strlit("st");
    reveal_strlit("nd");
    reveal_strlit("rd");
    reveal_strlit("th");
}

proof fn lemma_month_name_no_space(m: int)
    requires
        1 <= m <= 12,
    ensures
        month_name(m).len() > 0,
        no_space(month_name(m)),
{
    reveal_strlit("january");
    reveal_strlit("february");
    reveal_strlit("march");
    reveal_strlit("april");
    reveal_strlit("may");
    reveal_strlit("june");
    reveal_strlit("july");
    reveal_strlit("august");
    reveal_strlit("september");
    reveal_strlit("october");
    reveal_strlit("november");
    reveal_strlit("december");
}

/// The year text reads back as exactly the year.
proof fn lemma_year_text_parses(y: int)
    requires
        i32::MIN <= y <= i32::MAX,
    ensures
        year_text(y).len() > 0,
        no_space(year_text(y)),
        spec_parse_year(year_text(y)) == Some(y),
{
    let t = year_text(y);
    if y < 0 {
        lemma_dec_digits(-y);
        lemma_digits_no_space(dec_digits(-y));
        assert(t[0] == '-');
        assert forall|i: int| 0 <= i < t.len() implies !is_space(t[i]) by {
            if i >= 1 {
                assert(t[i] == dec_digits(-y)[i - 1]);
            }
        }
        assert(year_digits(t) =~= dec_digits(-y));
        assert(year_sign(t) == -1);
        assert(spec_parse_year(t) == Some(y));
    } else {
        lemma_dec_digits(y);
        lemma_digits_no_space(t);
        assert(is_digit(t[0]));
        assert(t[0] != '-' && t[0] != '+');
        assert(year_digits(t) == t);
        assert(year_sign(t) == 1);
        assert(spec_parse_year(t) == Some(y));
    }
}

/// The day token — digits then suffix — reads back as exactly the day with
/// exactly that suffix.
proof fn lemma_day_token(d: int)
    requires
        1 <= d <= 31,
    ensures
        (dec_digits(d) + suffix_for(d)).len() > 0,
        no_space(dec_digits(d) + suffix_for(d)),
        day_number(dec_digits(d) + suffix_for(d)) == Some(d),
        day_suffix(dec_digits(d) + suffix_for(d)) == suffix_for(d),
{
    let t = dec_digits(d) + suffix_for(d);
    let k = dec_digits(d).len() as int;
    lemma_dec_digits(d);
    lemma_suffix_for(d);
    lemma_digits_no_space(dec_digits(d));
    assert forall|i: int| 0 <= i < t.len() implies !is_space(t[i]) by {
        if i < k {
            assert(t[i] == dec_digits(d)[i]);
        } else {
            assert(t[i] == suffix_for(d)[i - k]);
        }
    }
    assert forall|i: int| 0 <= i < k implies is_digit(t[i]) by {
        assert(t[i] == dec_digits(d)[i]);
    }
    assert(t[k] == suffix_for(d)[0]);
    lemma_digit_prefix_at(t, k);
    assert(t.subrange(0, k) =~= dec_digits(d));
    assert(day_number(t) == Some(d));
    assert(t.subrange(k, t.len() as int) =~= suffix_for(d));
}

/// Writing a valid date in the canonical format and parsing it back yields
/// exactly that date.
pub proof fn lemma_canonical_parses(d: int, m: int, y: int)
    requires
        valid_date(d, m, y),
        i32::MIN <= y <= i32::MAX,
    ensures
        spec_parse(canonical_text(d, m, y)) == (DateOutcome::Parsed { day: d, month: m, year: y }),
{
    let t0 = dec_digits(d) + suffix_for(d);
    let t1 = "of"@;
    let t2 = month_name(m);
    let t3 = year_text(y);
    lemma_day_token(d);
    reveal_strlit("of");
    assert(t1.len() == 2);
    assert(no_space(t1)) by {
        assert(t1[0] == 'o');
        assert(t1[1] == 'f');
        assert forall|i: int| 0 <= i < 2 implies !is_space(t1[i]) by {
            if i == 0 {
                assert(t1[i] == 'o');
            } else {
                assert(t1[i] == 'f');
            }
        }
    }
    lemma_month_name_no_space(m);
    lemma_year_text_parses(y);

    let s = canonical_text(d, m, y);
    let r2 = t2 + seq![' '] + t3;
    let r1 = t1 + seq![' '] + r2;
    assert(s =~= t0 + seq![' '] + ("of"@ + seq![' '] + (month_name(m) + seq![' '] + year_text(y))));
    assert(r1 =~= "of"@ + seq![' '] + (month_name(m) + seq![' '] + year_text(y)));
    lemma_tokens_of_whole(t3);
    lemma_tokens_of_join(t2, t3);
    lemma_tokens_of_join(t1, r2);
    lemma_tokens_of_join(t0, r1);
    assert(tokens_of(s) =~= seq![t0, t1, t2, t3]);

    lemma_month_name_parses(m);
    assert(spec_parse_month(t2) == Some(m));
    assert(postfix_ok(d, suffix_for(d)));
    assert(spec_parse(s) == (DateOutcome::Parsed { day: d, month: m, year: y }));
}

fn digit_str(d: u32) -> (r: &'static str)
    requires
        d <= 9,
    ensures
        r@ == seq![digit_char(d as int)],
{
    let s: &'static str = match d {
        0 => "0",
        1 => "1",
        2 => "2",
        3 => "3",
        4 => "4",
        5 => "5",
        6 => "6",
        7 => "7",
        8 => "8",
        _ => "9",
    };
    proof {
        reveal_strlit("0");
        reveal_strlit("1");
        reveal_strlit("2");
        reveal_strlit("3");
        reveal_strlit("4");
        reveal_strlit("5");
        reveal_strlit("6");
        reveal_strlit("7");
        reveal_strlit("8");
        reveal_strlit("9");
        assert(s@ =~= seq![digit_char(d as int)]);
    }
    s
}

/// Appends the canonical digits of `n` to `out`.
fn push_dec(n: u32, out: &mut String)
    ensures
        final(out)@ == old(out)@ + dec_digits(n as int),
    decreases n,
{
    if n < 10 {
        out.append(digit_str(n));
    } else {
        push_dec(n / 10, out);
        out.append(digit_str(n % 10));
        proof {
            assert(out@ =~= old(out)@ + dec_digits(n as int));
        }
    }
}

fn suffix_str(d: u8) -> (r: &'static str)
    ensures
        r@ == suffix_for(d as int),
{
    if d == 1 || d == 21 || d == 31 {
        "st"
    } else if d == 2 || d == 22 {
        "nd"
    } else if d == 3 || d == 23 {
        "rd"
    } else {
        "th"
    }
}

fn month_str(m: u8) -> (r: &'static str)
    ensures
        r@ == month_name(m as int),
{
    let s: &'static str = match m {
        1 => "january",
        2 => "february",
        3 => "march",
        4 => "april",
        5 => "may",
        6 => "june",
        7 => "july",
        8 => "august",
        9 => "september",
        10 => "october",
        11 => "november",
        12 => "december",
        _ => "",
    };
    proof {
        reveal_strlit("");
        if m < 1 || m > 12 {
            assert(s@ =~= Seq::<char>::empty());
        }
    }
    s
}

/// Writes a (day, month, year) triple in the canonical text format.
pub fn render_canonical(d: u8, m: u8, y: i32) -> (r: String)
    ensures
        r@ == canonical_text(d as int, m as int, y as int),
{
    let mut out = String::new();
    push_dec(d as u32, &mut out);
    out.append(suffix_str(d));
    out.append(" ");
    out.append("of");
    out.append(" ");
    out.append(month_str(m));
    out.append(" ");
    if y < 0 {
        out.append("-");
        push_dec((-(y as i64)) as u32, &mut out);
    } else {
        push_dec(y as u32, &mut out);
    }
    proof {
        reveal_strlit(" ");
        reveal_strlit("-");
        assert(" "@ =~= seq![' ']);
        assert("-"@ =~= seq!['-']);
        assert(out@ =~= canonical_text(d as int, m as int, y as int));
    }
    out
}

/// Round trip: any date that some string parses to, its canonical text
/// parses to as well.
pub proof fn lemma_canonical_round_trip(s: Seq<char>, d: int, m: int, y: int)
    requires
        spec_parse(s) == (DateOutcome::Parsed { day: d, month: m, year: y }),
    ensures
        spec_parse(canonical_text(d, m, y)) == (DateOutcome::Parsed { day: d, month: m, year: y }),
{
    let toks = tokens_of(s);
    assert(valid_date(d, m, y));
    assert(spec_parse_year(toks[3]) == Some(y));
    lemma_canonical_parses(d, m, y);
}

} // verus!
