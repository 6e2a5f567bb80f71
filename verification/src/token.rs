//! The auth token grammar: `user-<user id>.<expiration>.<signature>`.
//!
//! A token matches when it starts with `user-`, continues with one or more
//! decimal digits and a dot, and the rest splits at its last dot that leaves
//! both sides non-empty. The expiration may itself hold dots, the signature
//! holds none but possibly a final one, and neither part may hold a line feed.
use vstd::prelude::*;

use crate::decimal::{
    all_digits, decimal_digits, decimal_of, decimal_value, is_digit, lemma_decimal_digits_value,
};
use crate::error::Error;
use crate::text::{chars_of, string_of};

verus! {

pub open spec fn has_user_prefix(t: Seq<char>) -> bool {
    &&& t.len() >= 5
    &&& t[0] == 'u'
    &&& t[1] == 's'
    &&& t[2] == 'e'
    &&& t[3] == 'r'
    &&& t[4] == '-'
}

/// The end of the run of digits that starts at `i`.
pub open spec fn digits_end(t: Seq<char>, i: int) -> int
    decreases t.len() - i,
{
    if 0 <= i < t.len() && is_digit(t[i]) {
        digits_end(t, i + 1)
    } else {
        i
    }
}

/// The greatest position `p` with `lo < p <= i` where `t` holds a dot, or -1.
pub open spec fn last_dot(t: Seq<char>, lo: int, i: int) -> int
    decreases i - lo,
{
    if i <= lo {
        -1
    } else if t[i] == '.' {
        i
    } else {
        last_dot(t, lo, i - 1)
    }
}

pub open spec fn no_line_feed(s: Seq<char>) -> bool {
    forall|i: int| 0 <= i < s.len() ==> #[trigger] s[i] != '\n'
}

/// The three parts of a token that matches the grammar: the digits of the
/// user id, the expiration and the signature.
pub open spec fn token_parts(t: Seq<char>) -> Option<(Seq<char>, Seq<char>, Seq<char>)> {
    if !has_user_prefix(t) {
        None
    } else {
        let d = digits_end(t, 5);
        if d == 5 || d >= t.len() || t[d] != '.' {
            None
        } else {
            let lo = d + 1;
            let p = last_dot(t, lo, t.len() - 2);
            if p < 0 || !no_line_feed(t.skip(lo)) {
                None
            } else {
                Some((t.subrange(5, d), t.subrange(lo, p), t.subrange(p + 1, t.len() as int)))
            }
        }
    }
}

/// What parsing a token answers: the user id, the expiration and the
/// signature, or a format error when the token does not match the grammar or
/// its user id does not fit in a `u64`.
pub open spec fn spec_parse_token(t: Seq<char>) -> Result<(u64, Seq<char>, Seq<char>), Error> {
    match token_parts(t) {
        Some((digits, exp, sig)) => if decimal_value(digits) <= u64::MAX {
            Ok((decimal_value(digits) as u64, exp, sig))
        } else {
            Err(Error::AuthFailedTokenWrongFormat)
        },
        None => Err(Error::AuthFailedTokenWrongFormat),
    }
}

/// The value of a parse result.
pub open spec fn parse_result_view(r: Result<(u64, String, String), Error>) -> Result<
    (u64, Seq<char>, Seq<char>),
    Error,
> {
    match r {
        Ok((u, e, s)) => Ok((u, e@, s@)),
        Err(e) => Err(e),
    }
}

/// Parses a token of the form `user-<user id>.<expiration>.<signature>`
/// and returns the user id, the expiration and the signature.
#[verifier::loop_isolation(false)]
pub fn parse_token(token: String) -> (res: Result<(u64, String, String), Error>)
    ensures
        parse_result_view(res) == spec_parse_token(token@),
{
    let cs = chars_of(&token);
    let ghost t = token@;
    let n = cs.len();
    if n < 5 || cs[0] != 'u' || cs[1] != 's' || cs[2] != 'e' || cs[3] != 'r' || cs[4] != '-' {
        return Err(Error::AuthFailedTokenWrongFormat);
    }
    // The run of digits of the user id.

    let mut d: usize = 5;
    while d < n && '0' <= cs[d] && cs[d] <= '9'
        invariant
            cs@ == t,
            n == t.len(),
            5 <= d <= n,
            digits_end(t, d as int) == digits_end(t, 5),
            forall|i: int| 5 <= i < d ==> is_digit(#[trigger] t[i]),
        decreases n - d,
    {
        d = d + 1;
    }
    if d == 5 || d >= n || cs[d] != '.' {
        return Err(Error::AuthFailedTokenWrongFormat);
    }
    let lo = d + 1;
    // Neither the expiration nor the signature may hold a line feed.
    let mut q = lo;
    while q < n
        invariant
            cs@ == t,
            n == t.len(),
            lo <= q <= n,
            forall|i: int| lo <= i < q ==> #[trigger] t[i] != '\n',
        decreases n - q,
    {
        if cs[q] == '\n' {
            assert(t.skip(lo as int)[q - lo] == '\n');
            return Err(Error::AuthFailedTokenWrongFormat);
        }
        q = q + 1;
    }
    assert(no_line_feed(t.skip(lo as int))) by {
        assert forall|i: int| 0 <= i < t.skip(lo as int).len() implies #[trigger] t.skip(
            lo as int,
        )[i] != '\n' by {
            assert(t.skip(lo as int)[i] == t[lo + i]);
        }
    }
    // The last dot that leaves a non-empty expiration and signature.
    let mut p: usize = n - 2;
    while p > lo && cs[p] != '.'
        invariant
            cs@ == t,
            n == t.len(),
            lo <= n,
            p <= n - 2,
            last_dot(t, lo as int, p as int) == last_dot(t, lo as int, n - 2),
        decreases p,
    {
        p = p - 1;
    }
    if p <= lo {
        return Err(Error::AuthFailedTokenWrongFormat);
    }
    assert(forall|i: int| 0 <= i < t.subrange(5, d as int).len() ==> t.subrange(5, d as int)[i]
        == t[5 + i]);
    let user_id = match decimal_of(&cs, 5, d) {
        Some(v) => v,
        None => {
            return Err(Error::AuthFailedTokenWrongFormat);
        },
    };
    let expiration = string_of(&cs, lo, p);
    let signature = string_of(&cs, p + 1, n);
    Ok((user_id, expiration, signature))
}

/// The token `user-<digits>.<exp>.<sig>` for the given parts.
pub open spec fn token_of(digits: Seq<char>, exp: Seq<char>, sig: Seq<char>) -> Seq<char> {
    seq!['u', 's', 'e', 'r', '-'] + digits + seq!['.'] + exp + seq!['.'] + sig
}

proof fn lemma_digits_end(t: Seq<char>, i: int, end: int)
    requires
        0 <= i <= end < t.len(),
        forall|j: int| i <= j < end ==> is_digit(#[trigger] t[j]),
        !is_digit(t[end]),
    ensures
        digits_end(t, i) == end,
    decreases end - i,
{
    if i < end {
        lemma_digits_end(t, i + 1, end);
    }
}

proof fn lemma_last_dot(t: Seq<char>, lo: int, p: int, i: int)
    requires
        lo < p <= i < t.len(),
        t[p] == '.',
        forall|j: int| p < j <= i ==> #[trigger] t[j] != '.',
    ensures
        last_dot(t, lo, i) == p,
    decreases i - p,
{
    if i > p {
        lemma_last_dot(t, lo, p, i - 1);
    }
}

/// A token built from a user id's digits, a non-empty expiration and a
/// non-empty signature without dots parses back into those parts, as long as
/// neither part holds a line feed and the id fits in a `u64`.
pub proof fn lemma_parse_token_of(digits: Seq<char>, exp: Seq<char>, sig: Seq<char>)
    requires
        digits.len() > 0,
        all_digits(digits),
        decimal_value(digits) <= u64::MAX,
        exp.len() > 0,
        sig.len() > 0,
        no_line_feed(exp),
        no_line_feed(sig),
        forall|i: int| 0 <= i < sig.len() ==> #[trigger] sig[i] != '.',
    ensures
        spec_parse_token(token_of(digits, exp, sig)) == Ok::<(u64, Seq<char>, Seq<char>), Error>(
            (decimal_value(digits) as u64, exp, sig),
        ),
{
    let t = token_of(digits, exp, sig);
    let d: int = 5 + digits.len() as int;
    let lo: int = d + 1;
    let p: int = lo + exp.len() as int;
    assert(t.len() == p + 1 + sig.len());
    assert forall|j: int| 0 <= j < digits.len() implies t[5 + j] == digits[j] by {}
    assert forall|j: int| 0 <= j < exp.len() implies t[lo + j] == exp[j] by {}
    assert forall|j: int| 0 <= j < sig.len() implies t[p + 1 + j] == sig[j] by {}
    assert(t[d] == '.');
    assert(t[p] == '.');
    assert forall|j: int| 5 <= j < d implies is_digit(#[trigger] t[j]) by {
        assert(t[j] == digits[j - 5]);
    }
    lemma_digits_end(t, 5, d);
    assert forall|j: int| p < j <= t.len() - 2 implies #[trigger] t[j] != '.' by {
        assert(t[j] == sig[j - p - 1]);
    }
    lemma_last_dot(t, lo, p, t.len() - 2);
    assert(no_line_feed(t.skip(lo))) by {
        assert forall|j: int| 0 <= j < t.skip(lo).len() implies #[trigger] t.skip(lo)[j] != '\n' by {
            if lo + j < p {
                assert(t.skip(lo)[j] == exp[j]);
            } else if lo + j > p {
                assert(t.skip(lo)[j] == sig[lo + j - p - 1]);
            }
        }
    }
    assert(t.subrange(5, d) =~= digits);
    assert(t.subrange(lo, p) =~= exp);
    assert(t.subrange(p + 1, t.len() as int) =~= sig);
}

/// The token for user `user_id`, written in decimal, parses back to that
/// user, expiration and signature.
pub proof fn lemma_parse_token_of_user(user_id: u64, exp: Seq<char>, sig: Seq<char>)
    requires
        exp.len() > 0,
        sig.len() > 0,
        no_line_feed(exp),
        no_line_feed(sig),
        forall|i: int| 0 <= i < sig.len() ==> #[trigger] sig[i] != '.',
    ensures
        spec_parse_token(token_of(decimal_digits(user_id as nat), exp, sig)) == Ok::<
            (u64, Seq<char>, Seq<char>),
            Error,
        >((user_id, exp, sig)),
{
    lemma_decimal_digits_value(user_id as nat);
    lemma_parse_token_of(decimal_digits(user_id as nat), exp, sig);
}

proof fn lemma_digits_end_props(t: Seq<char>, i: int)
    requires
        0 <= i <= t.len(),
    ensures
        i <= digits_end(t, i) <= t.len(),
        forall|j: int| i <= j < digits_end(t, i) ==> is_digit(#[trigger] t[j]),
        digits_end(t, i) < t.len() ==> !is_digit(t[digits_end(t, i)]),
    decreases t.len() - i,
{
    if i < t.len() && is_digit(t[i]) {
        lemma_digits_end_props(t, i + 1);
    }
}

proof fn lemma_last_dot_props(t: Seq<char>, lo: int, i: int)
    requires
        i < t.len(),
    ensures
        last_dot(t, lo, i) == -1 || (lo < last_dot(t, lo, i) <= i && t[last_dot(t, lo, i)] == '.'),
        forall|j: int|
            lo < j <= i && last_dot(t, lo, i) < j ==> #[trigger] t[j] != '.',
    decreases i - lo,
{
    if i > lo && t[i] != '.' {
        lemma_last_dot_props(t, lo, i - 1);
    }
}

/// Every token that matches has the documented form: `user-`, a non-empty run
/// of digits, a dot, a non-empty expiration, a dot, and a non-empty signature
/// that holds no dot but possibly a final one, with no line feed in either part.
pub proof fn lemma_token_parts_form(t: Seq<char>)
    ensures
        token_parts(t) matches Some((digits, exp, sig)) ==> {
            &&& t == token_of(digits, exp, sig)
            &&& digits.len() > 0
            &&& all_digits(digits)
            &&& exp.len() > 0
            &&& sig.len() > 0
            &&& no_line_feed(exp)
            &&& no_line_feed(sig)
            &&& forall|i: int| 0 <= i < sig.len() - 1 ==> #[trigger] sig[i] != '.'
        },
{
    if has_user_prefix(t) {
        lemma_digits_end_props(t, 5);
        let d = digits_end(t, 5);
        if !(d == 5 || d >= t.len() || t[d] != '.') {
            let lo = d + 1;
            lemma_last_dot_props(t, lo, t.len() - 2);
            let p = last_dot(t, lo, t.len() - 2);
            if p >= 0 && no_line_feed(t.skip(lo)) {
                let digits = t.subrange(5, d);
                let exp = t.subrange(lo, p);
                let sig = t.subrange(p + 1, t.len() as int);
                assert(all_digits(digits)) by {
                    assert forall|i: int| 0 <= i < digits.len() implies is_digit(
                        #[trigger] digits[i],
                    ) by {
                        assert(digits[i] == t[5 + i]);
                    }
                }
                assert(no_line_feed(exp)) by {
                    assert forall|i: int| 0 <= i < exp.len() implies #[trigger] exp[i] != '\n' by {
                        assert(exp[i] == t.skip(lo)[i]);
                    }
                }
                assert(no_line_feed(sig)) by {
                    assert forall|i: int| 0 <= i < sig.len() implies #[trigger] sig[i] != '\n' by {
                        assert(sig[i] == t.skip(lo)[p + 1 - lo + i]);
                    }
                }
                assert forall|i: int| 0 <= i < sig.len() - 1 implies #[trigger] sig[i] != '.' by {
                    assert(sig[i] == t[p + 1 + i]);
                }
                assert(t =~= token_of(digits, exp, sig));
            }
        }
    }
}

} // verus!
