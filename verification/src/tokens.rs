//! Splitting an input string into its whitespace-delimited tokens.
//!
//! [`tokens_of`] is the mathematical model: the maximal non-space runs of a
//! character sequence, in order. [`tokenize`] realises it and demands exactly
//! four tokens, as the date format requires.

use vstd::prelude::*;
use vstd::string::{StrSliceExecFns, StringExecFns};
use crate::chars::{is_space, is_space_char};
use crate::error::ParseDateError;

verus! {

/// No character of `s` is whitespace.
pub open spec fn no_space(s: Seq<char>) -> bool {
    forall|i: int| 0 <= i < s.len() ==> !is_space(s[i])
}

/// The index of the first whitespace character of `s`, or `s.len()` if there
/// is none.
pub open spec fn first_space(s: Seq<char>) -> int
    decreases s.len(),
{
    if s.len() == 0 {
        0
    } else if is_space(s[0]) {
        0
    } else {
        1 + first_space(s.drop_first())
    }
}

pub proof fn lemma_first_space(s: Seq<char>)
    ensures
        0 <= first_space(s) <= s.len(),
        forall|i: int| 0 <= i < first_space(s) ==> !is_space(s[i]),
        first_space(s) < s.len() ==> is_space(s[first_space(s)]),
    decreases s.len(),
{
    if s.len() > 0 && !is_space(s[0]) {
        lemma_first_space(s.drop_first());
        assert forall|i: int| 0 <= i < first_space(s) implies !is_space(s[i]) by {
            if i >= 1 {
                assert(!is_space(s.drop_first()[i - 1]));
            }
        }
    }
}

/// The tokens of `s`: its maximal runs of non-whitespace characters, in order.
pub open spec fn tokens_of(s: Seq<char>) -> Seq<Seq<char>>
    decreases s.len(),
    via tokens_of_decreases
{
    if s.len() == 0 {
        Seq::empty()
    } else if is_space(s[0]) {
        tokens_of(s.drop_first())
    } else {
        seq![s.subrange(0, first_space(s))] + tokens_of(s.subrange(first_space(s), s.len() as int))
    }
}

#[via_fn]
proof fn tokens_of_decreases(s: Seq<char>) {
    if s.len() != 0 && !is_space(s[0]) {
        lemma_first_space(s);
    }
}

/// Dropping one leading whitespace character leaves the tokens unchanged.
pub proof fn lemma_skip_space(s: Seq<char>, i: int)
    requires
        0 <= i < s.len(),
        is_space(s[i]),
    ensures
        tokens_of(s.subrange(i, s.len() as int)) == tokens_of(s.subrange(i + 1, s.len() as int)),
{
    let t = s.subrange(i, s.len() as int);
    assert(t[0] == s[i]);
    assert(t.drop_first() =~= s.subrange(i + 1, s.len() as int));
}

/// If the first `k` characters are non-space and the `k`-th (if any) is a
/// space, the first space stands exactly at `k`.
pub proof fn lemma_first_space_at(s: Seq<char>, k: int)
    requires
        0 <= k <= s.len(),
        forall|i: int| 0 <= i < k ==> !is_space(s[i]),
        k < s.len() ==> is_space(s[k]),
    ensures
        first_space(s) == k,
    decreases s.len(),
{
    if k > 0 {
        let t = s.drop_first();
        assert(forall|i: int| 0 <= i < k - 1 ==> !is_space(#[trigger] t[i]));
        assert(k - 1 < t.len() ==> is_space(t[k - 1]));
        lemma_first_space_at(t, k - 1);
    }
}

/// A maximal non-space run `s[i..j]` is the next token of `s[i..]`, followed
/// by the tokens of `s[j..]`.
pub proof fn lemma_skip_token(s: Seq<char>, i: int, j: int)
    requires
        0 <= i < j <= s.len(),
        forall|k: int| i <= k < j ==> !is_space(s[k]),
        j < s.len() ==> is_space(s[j]),
    ensures
        tokens_of(s.subrange(i, s.len() as int)) == seq![s.subrange(i, j)] + tokens_of(
            s.subrange(j, s.len() as int),
        ),
{
    let t = s.subrange(i, s.len() as int);
    assert(forall|k: int| 0 <= k < j - i ==> !is_space(#[trigger] t[k]));
    assert(j - i < t.len() ==> is_space(t[j - i]));
    lemma_first_space_at(t, j - i);
    assert(!is_space(t[0]));
    assert(t.subrange(0, j - i) =~= s.subrange(i, j));
    assert(t.subrange(j - i, t.len() as int) =~= s.subrange(j, s.len() as int));
}

/// A nonempty sequence without whitespace is one single token.
pub proof fn lemma_tokens_of_whole(s: Seq<char>)
    requires
        no_space(s),
        s.len() > 0,
    ensures
        tokens_of(s) == seq![s],
{
    lemma_first_space_at(s, s.len() as int);
    assert(s.subrange(0, s.len() as int) =~= s);
    assert(s.subrange(s.len() as int, s.len() as int) =~= Seq::<char>::empty());
    assert(tokens_of(Seq::<char>::empty()) =~= Seq::<Seq<char>>::empty());
    assert(tokens_of(s) == seq![s.subrange(0, s.len() as int)] + tokens_of(
        s.subrange(s.len() as int, s.len() as int),
    ));
    assert(tokens_of(s) =~= seq![s]);
}

/// Joining a space-free token, a space and a rest splits back into that
/// token followed by the tokens of the rest.
pub proof fn lemma_tokens_of_join(a: Seq<char>, b: Seq<char>)
    requires
        no_space(a),
        a.len() > 0,
    ensures
        tokens_of(a + seq![' '] + b) == seq![a] + tokens_of(b),
{
    let s = a + seq![' '] + b;
    assert(s[0] == a[0]);
    assert forall|i: int| 0 <= i < a.len() implies !is_space(s[i]) by {
        assert(s[i] == a[i]);
    }
    assert(s[a.len() as int] == ' ');
    lemma_first_space_at(s, a.len() as int);
    assert(s.subrange(0, a.len() as int) =~= a);
    assert(s.subrange(a.len() as int, s.len() as int) =~= seq![' '] + b);
    let rest = seq![' '] + b;
    assert(is_space(rest[0]));
    assert(rest.drop_first() =~= b);
    assert(tokens_of(rest) == tokens_of(b));
    assert(tokens_of(s) == seq![s.subrange(0, a.len() as int)] + tokens_of(
        s.subrange(a.len() as int, s.len() as int),
    ));
    assert(tokens_of(s) == seq![a] + tokens_of(b));
}

/// Splits `input` into its whitespace-delimited tokens and succeeds only on
/// exactly four, returning them in order; any other count is rejected with
/// `MalformedDateString` carrying the input.
pub fn tokenize(input: &str) -> (r: Result<(String, String, String, String), ParseDateError>)
    ensures
        match r {
            Ok(toks) => tokens_of(input@) == seq![toks.0@, toks.1@, toks.2@, toks.3@],
            Err(e) => {
                &&& tokens_of(input@).len() != 4
                &&& e matches ParseDateError::MalformedDateString(t) && t@ == input@
            },
        },
{
    let n = input.unicode_len();
    let mut toks: Vec<String> = Vec::new();
    proof {
        assert(input@.subrange(0, n as int) =~= input@);
        assert(toks.deep_view() =~= Seq::<Seq<char>>::empty());
    }
    let mut i: usize = 0;
    while i < n
        invariant
            n == input@.len(),
            i <= n,
            tokens_of(input@) == toks.deep_view() + tokens_of(input@.subrange(i as int, n as int)),
        decreases n - i,
    {
        if is_space_char(input.get_char(i)) {
            proof {
                lemma_skip_space(input@, i as int);
            }
            i += 1;
        } else {
            let ghost prev = toks.deep_view();
            let start = i;
            let mut j = i;
            let mut stop = false;
            while j < n && !stop
                invariant
                    n == input@.len(),
                    start <= j <= n,
                    forall|k: int| start <= k < j ==> !is_space(input@[k]),
                    stop ==> j < n && is_space(input@[j as int]),
                decreases n - j + if stop { 0int } else { 1 },
            {
                if is_space_char(input.get_char(j)) {
                    stop = true;
                } else {
                    j += 1;
                }
            }
            let tok = String::from_str(input.substring_char(start, j));
            toks.push(tok);
            proof {
                lemma_skip_token(input@, start as int, j as int);
                assert(toks.deep_view() =~= prev + seq![input@.subrange(start as int, j as int)]);
            }
            i = j;
        }
    }
    proof {
        assert(input@.subrange(n as int, n as int) =~= Seq::<char>::empty());
        assert(tokens_of(input@) =~= toks.deep_view());
    }
    if toks.len() == 4 {
        let a = toks[0].clone();
        let b = toks[1].clone();
        let c = toks[2].clone();
        let d = toks[3].clone();
        proof {
            assert(tokens_of(input@) =~= seq![a@, b@, c@, d@]);
        }
        Ok((a, b, c, d))
    } else {
        Err(ParseDateError::MalformedDateString(String::from_str(input)))
    }
}

} // verus!
