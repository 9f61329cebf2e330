//! Parsing the month token: a case-insensitive match against the twelve full
//! English month names.

use vstd::prelude::*;
use vstd::string::{StrSliceExecFns, StringExecFns};
use crate::chars::{lower_code, lower_code_of};
use crate::error::ParseDateError;

verus! {

/// The two sequences are equal once ASCII capital letters are folded to
/// lower case.
pub open spec fn lower_matches(s: Seq<char>, t: Seq<char>) -> bool {
    &&& s.len() == t.len()
    &&& forall|i: int| 0 <= i < s.len() ==> lower_code(s[i]) == lower_code(t[i])
}

/// The full English name of month `m`, in lower case, for `m` in 1 through 12.
pub open spec fn month_name(m: int) -> Seq<char> {
    if m == 1 { "january"@ }
    else if m == 2 { "february"@ }
    else if m == 3 { "march"@ }
    else if m == 4 { "april"@ }
    else if m == 5 { "may"@ }
    else if m == 6 { "june"@ }
    else if m == 7 { "july"@ }
    else if m == 8 { "august"@ }
    else if m == 9 { "september"@ }
    else if m == 10 { "october"@ }
    else if m == 11 { "november"@ }
    else if m == 12 { "december"@ }
    else { Seq::empty() }
}

/// The month a token denotes: the first of the twelve month names that it
/// matches regardless of ASCII case, or none.
pub open spec fn spec_parse_month(s: Seq<char>) -> Option<int> {
    if lower_matches(s, month_name(1)) { Some(1int) }
    else if lower_matches(s, month_name(2)) { Some(2int) }
    else if lower_matches(s, month_name(3)) { Some(3int) }
    else if lower_matches(s, month_name(4)) { Some(4int) }
    else if lower_matches(s, month_name(5)) { Some(5int) }
    else if lower_matches(s, month_name(6)) { Some(6int) }
    else if lower_matches(s, month_name(7)) { Some(7int) }
    else if lower_matches(s, month_name(8)) { Some(8int) }
    else if lower_matches(s, month_name(9)) { Some(9int) }
    else if lower_matches(s, month_name(10)) { Some(10int) }
    else if lower_matches(s, month_name(11)) { Some(11int) }
    else if lower_matches(s, month_name(12)) { Some(12int) }
    else { None }
}

/// Decides [`lower_matches`] on two string slices.
fn eq_lower(a: &str, b: &str) -> (r: bool)
    ensures
        r == lower_matches(a@, b@),
{
    let n = a.unicode_len();
    if n != b.unicode_len() {
        return false;
    }
    let mut i: usize = 0;
    while i < n
        invariant
            n == a@.len(),
            n == b@.len(),
            i <= n,
            forall|k: int| 0 <= k < i ==> lower_code(a@[k]) == lower_code(b@[k]),
        decreases n - i,
    {
        if lower_code_of(a.get_char(i)) != lower_code_of(b.get_char(i)) {
            return false;
        }
        i += 1;
    }
    true
}

/// Matches the token against the twelve month names regardless of ASCII
/// case and returns the month's number, or rejects it with `UnknownMonth`
/// carrying the token as given.
pub fn parse_month(input: &str) -> (r: Result<u8, ParseDateError>)
    ensures
        match r {
            Ok(m) => 1 <= m <= 12 && spec_parse_month(input@) == Some(m as int),
            Err(e) => {
                &&& spec_parse_month(input@) is None
                &&& e matches ParseDateError::UnknownMonth(t) && t@ == input@
            },
        },
{
    if eq_lower(input, "january") { Ok(1) }
    else if eq_lower(input, "february") { Ok(2) }
    else if eq_lower(input, "march") { Ok(3) }
    else if eq_lower(input, "april") { Ok(4) }
    else if eq_lower(input, "may") { Ok(5) }
    else if eq_lower(input, "june") { Ok(6) }
    else if eq_lower(input, "july") { Ok(7) }
    else if eq_lower(input, "august") { Ok(8) }
    else if eq_lower(input, "september") { Ok(9) }
    else if eq_lower(input, "october") { Ok(10) }
    else if eq_lower(input, "november") { Ok(11) }
    else if eq_lower(input, "december") { Ok(12) }
    else { Err(ParseDateError::UnknownMonth(String::from_str(input))) }
}

/// Folding case on one side of a match changes nothing.
proof fn lemma_lower_matches_congruent(s: Seq<char>, t: Seq<char>, u: Seq<char>)
    requires
        s.len() == t.len(),
        forall|i: int| 0 <= i < s.len() ==> lower_code(s[i]) == lower_code(t[i]),
    ensures
        lower_matches(s, u) == lower_matches(t, u),
{
    if lower_matches(s, u) {
        assert forall|i: int| 0 <= i < t.len() implies lower_code(t[i]) == lower_code(u[i]) by {
            assert(lower_code(s[i]) == lower_code(u[i]));
        }
    }
    if lower_matches(t, u) {
        assert forall|i: int| 0 <= i < s.len() implies lower_code(s[i]) == lower_code(u[i]) by {
            assert(lower_code(t[i]) == lower_code(u[i]));
        }
    }
}

/// Month parsing is case-insensitive: two tokens that agree character for
/// character up to ASCII case denote the same month.
pub proof fn lemma_parse_month_case_insensitive(s: Seq<char>, t: Seq<char>)
    requires
        s.len() == t.len(),
        forall|i: int| 0 <= i < s.len() ==> lower_code(s[i]) == lower_code(t[i]),
    ensures
        spec_parse_month(s) == spec_parse_month(t),
{
    lemma_lower_matches_congruent(s, t, month_name(1));
    lemma_lower_matches_congruent(s, t, month_name(2));
    lemma_lower_matches_congruent(s, t, month_name(3));
    lemma_lower_matches_congruent(s, t, month_name(4));
    lemma_lower_matches_congruent(s, t, month_name(5));
    lemma_lower_matches_congruent(s, t, month_name(6));
    lemma_lower_matches_congruent(s, t, month_name(7));
    lemma_lower_matches_congruent(s, t, month_name(8));
    lemma_lower_matches_congruent(s, t, month_name(9));
    lemma_lower_matches_congruent(s, t, month_name(10));
    lemma_lower_matches_congruent(s, t, month_name(11));
    lemma_lower_matches_congruent(s, t, month_name(12));
}

/// Each month name denotes its own month.
pub proof fn lemma_month_name_parses(m: int)
    requires
        1 <= m <= 12,
    ensures
        spec_parse_month(month_name(m)) == Some(m),
{
    reveal_strlit("january");
    reveal_strlit("february");
    reveal_strlit("march");
    reveal_strlit("april");
    reveal_strlit("may");
    reveal_strlit("june");
    reveal_strlit("july");
    reveal_strlit("august");
    reveal_strlit("september");
    reveal_strlit("october");
    reveal_strlit("november");
    reveal_strlit("december");
    if m == 4 {
        assert(lower_code(month_name(4)[0]) != lower_code(month_name(3)[0]));
    }
    if m == 7 {
        assert(lower_code(month_name(7)[2]) != lower_code(month_name(6)[2]));
    }
    if m == 10 {
        assert(lower_code(month_name(10)[0]) != lower_code(month_name(1)[0]));
    }
    if m == 11 {
        assert(lower_code(month_name(11)[0]) != lower_code(month_name(2)[0]));
    }
    if m == 12 {
        assert(lower_code(month_name(12)[0]) != lower_code(month_name(2)[0]));
        assert(lower_code(month_name(12)[0]) != lower_code(month_name(11)[0]));
    }
}

} // verus!
