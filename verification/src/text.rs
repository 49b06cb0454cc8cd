//! Tokenization of an input line.
//!
//! A token is a maximal run of non-whitespace characters; the dispatcher and
//! the renderer both work with the first token of the line.

use vstd::prelude::*;

verus! {

/// A whitespace character of an input line: space, tab, carriage return or
/// newline.
pub open spec fn is_ws(c: char) -> bool {
    c == ' ' || c == '\t' || c == '\r' || c == '\n'
}

/// Length of the run of whitespace characters at the front of `s`.
pub open spec fn ws_run(s: Seq<char>) -> int
    decreases s.len(),
{
    if s.len() == 0 || !is_ws(s[0]) {
        0
    } else {
        1 + ws_run(s.drop_first())
    }
}

/// Length of the run of non-whitespace characters at the front of `s`.
pub open spec fn tok_run(s: Seq<char>) -> int
    decreases s.len(),
{
    if s.len() == 0 || is_ws(s[0]) {
        0
    } else {
        1 + tok_run(s.drop_first())
    }
}

/// Index where the first whitespace-delimited token of `s` starts
/// (`s.len()` when the line is empty or all whitespace).
pub open spec fn tok_start(s: Seq<char>) -> int {
    ws_run(s)
}

/// Index just past the first whitespace-delimited token of `s`.
pub open spec fn tok_end(s: Seq<char>) -> int {
    tok_start(s) + tok_run(s.skip(tok_start(s)))
}

/// The first whitespace-delimited token of `s`; empty when the line is empty
/// or all whitespace.
pub open spec fn first_token(s: Seq<char>) -> Seq<char> {
    s.subrange(tok_start(s), tok_end(s))
}

/// Any index with the maximal-leading-whitespace-run property equals `ws_run`.
pub proof fn lemma_ws_run_is(s: Seq<char>, i: int)
    requires
        0 <= i <= s.len(),
        forall|j: int| 0 <= j < i ==> is_ws(s[j]),
        i < s.len() ==> !is_ws(s[i]),
    ensures
        ws_run(s) == i,
    decreases s.len(),
{
    if s.len() == 0 {
    } else if i == 0 {
    } else {
        assert(is_ws(s[0]));
        assert forall|j: int| 0 <= j < i - 1 implies is_ws(s.drop_first()[j]) by {
            assert(s.drop_first()[j] == s[j + 1]);
        }
        if i - 1 < s.drop_first().len() {
            assert(s.drop_first()[i - 1] == s[i]);
        }
        lemma_ws_run_is(s.drop_first(), i - 1);
    }
}

/// Any index with the maximal-leading-token-run property equals `tok_run`.
pub proof fn lemma_tok_run_is(s: Seq<char>, i: int)
    requires
        0 <= i <= s.len(),
        forall|j: int| 0 <= j < i ==> !is_ws(s[j]),
        i < s.len() ==> is_ws(s[i]),
    ensures
        tok_run(s) == i,
    decreases s.len(),
{
    if s.len() == 0 {
    } else if i == 0 {
    } else {
        assert(!is_ws(s[0]));
        assert forall|j: int| 0 <= j < i - 1 implies !is_ws(s.drop_first()[j]) by {
            assert(s.drop_first()[j] == s[j + 1]);
        }
        if i - 1 < s.drop_first().len() {
            assert(s.drop_first()[i - 1] == s[i]);
        }
        lemma_tok_run_is(s.drop_first(), i - 1);
    }
}

/// Whether `c` is whitespace, decided at run time.
pub fn is_ws_char(c: char) -> (r: bool)
    ensures
        r == is_ws(c),
{
    c == ' ' || c == '\t' || c == '\r' || c == '\n'
}

/// The bounds of the first whitespace-delimited token of `s`: the token is
/// `s@.subrange(r.0, r.1)`, the characters before `r.0` are the leading
/// whitespace, those from `r.1` on are the tail of the line.
pub fn token_bounds(s: &str) -> (r: (usize, usize))
    ensures
        r.0 == tok_start(s@),
        r.1 == tok_end(s@),
        r.0 <= r.1 <= s@.len(),
{
    let n = s.unicode_len();
    let mut a: usize = 0;
    while a < n && is_ws_char(s.get_char(a))
        invariant
            0 <= a <= n,
            n == s@.len(),
            forall|j: int| 0 <= j < a ==> is_ws(s@[j]),
        decreases n - a,
    {
        a = a + 1;
    }
    proof {
        lemma_ws_run_is(s@, a as int);
    }
    let mut b: usize = a;
    while b < n && !is_ws_char(s.get_char(b))
        invariant
            a <= b <= n,
            n == s@.len(),
            forall|j: int| a <= j < b ==> !is_ws(s@[j]),
        decreases n - b,
    {
        b = b + 1;
    }
    proof {
        let tail = s@.skip(a as int);
        assert forall|j: int| 0 <= j < b - a implies !is_ws(tail[j]) by {
            assert(tail[j] == s@[j + a]);
        }
        if b < n {
            assert(tail[b - a] == s@[b as int]);
        }
        lemma_tok_run_is(tail, b - a);
    }
    (a, b)
}

/// Whether two string slices hold the same characters.
pub fn str_eq(a: &str, b: &str) -> (r: bool)
    ensures
        r == (a@ == b@),
{
    let na = a.unicode_len();
    let nb = b.unicode_len();
    if na != nb {
        return false;
    }
    let mut i: usize = 0;
    while i < na
        invariant
            0 <= i <= na,
            na == a@.len(),
            na == b@.len(),
            forall|j: int| 0 <= j < i ==> a@[j] == b@[j],
        decreases na - i,
    {
        if a.get_char(i) != b.get_char(i) {
            return false;
        }
        i = i + 1;
    }
    proof {
        assert(a@ =~= b@);
    }
    true
}

/// Relies on `String::push`: appends exactly the one character `c` to `s`.
#[verifier::external_body]
pub(crate) fn push_char(s: &mut String, c: char)
    ensures
        final(s)@ == old(s)@.push(c),
{
    s.push(c);
}

} // verus!
