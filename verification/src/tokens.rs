//! Splitting a command line into words separated by ASCII whitespace, as
//! `str::split_ascii_whitespace` does.
use vstd::prelude::*;

verus! {

/// `u8::is_ascii_whitespace`: space, tab, line feed, form feed, return.
pub open spec fn is_ascii_ws(b: u8) -> bool {
    b == 32 || b == 9 || b == 10 || b == 12 || b == 13
}

/// First position at or after `i` that is not whitespace (or the end).
pub open spec fn skip_ws(s: Seq<u8>, i: int) -> int
    decreases s.len() - i,
{
    if i >= s.len() || !is_ascii_ws(s[i]) {
        i
    } else {
        skip_ws(s, i + 1)
    }
}

/// First position at or after `i` that is whitespace (or the end).
pub open spec fn word_end(s: Seq<u8>, i: int) -> int
    decreases s.len() - i,
{
    if i >= s.len() || is_ascii_ws(s[i]) {
        i
    } else {
        word_end(s, i + 1)
    }
}

/// Start and end of word `k` (counting from 0), if the line has that many.
pub open spec fn token_span(s: Seq<u8>, k: nat) -> Option<(int, int)>
    decreases k,
{
    let from = if k == 0 {
        0
    } else {
        match token_span(s, (k - 1) as nat) {
            Some((_, e)) => e,
            None => s.len() as int,
        }
    };
    let a = skip_ws(s, from);
    if a >= s.len() {
        None
    } else {
        Some((a, word_end(s, a)))
    }
}

/// Word `k` of the line, if it has that many.
pub open spec fn token(s: Seq<u8>, k: nat) -> Option<Seq<u8>> {
    match token_span(s, k) {
        Some((a, e)) => Some(s.subrange(a, e)),
        None => None,
    }
}

proof fn lemma_skip_ws_bounds(s: Seq<u8>, i: int)
    requires
        0 <= i <= s.len(),
    ensures
        i <= skip_ws(s, i) <= s.len(),
        skip_ws(s, i) < s.len() ==> !is_ascii_ws(s[skip_ws(s, i)]),
    decreases s.len() - i,
{
    if i < s.len() && is_ascii_ws(s[i]) {
        lemma_skip_ws_bounds(s, i + 1);
    }
}

proof fn lemma_word_end_bounds(s: Seq<u8>, i: int)
    requires
        0 <= i <= s.len(),
    ensures
        i <= word_end(s, i) <= s.len(),
        forall|j: int| i <= j < word_end(s, i) ==> !is_ascii_ws(#[trigger] s[j]),
    decreases s.len() - i,
{
    if i < s.len() && !is_ascii_ws(s[i]) {
        lemma_word_end_bounds(s, i + 1);
    }
}

/// Scanning from the end finds nothing.
pub proof fn lemma_skip_ws_end(s: Seq<u8>)
    ensures
        skip_ws(s, s.len() as int) == s.len(),
{
}

/// Words are nonempty runs of non-whitespace inside the line.
pub proof fn lemma_token_span(s: Seq<u8>, k: nat)
    ensures
        token_span(s, k) matches Some((a, e)) ==> 0 <= a < e <= s.len() && forall|j: int|
            a <= j < e ==> !is_ascii_ws(#[trigger] s[j]),
    decreases k,
{
    let from = if k == 0 {
        0
    } else {
        match token_span(s, (k - 1) as nat) {
            Some((_, e)) => e,
            None => s.len() as int,
        }
    };
    if k > 0 {
        lemma_token_span(s, (k - 1) as nat);
    }
    lemma_skip_ws_bounds(s, from);
    let a = skip_ws(s, from);
    if a < s.len() {
        lemma_word_end_bounds(s, a);
        assert(word_end(s, a) == word_end(s, a + 1));
        lemma_word_end_bounds(s, a + 1);
    }
}

/// The word that starts at or after `from`: what `token_span` yields for
/// the next word.
fn next_span(s: &[u8], from: usize) -> (r: Option<(usize, usize)>)
    requires
        from <= s@.len(),
    ensures
        r matches Some((a, e)) ==> skip_ws(s@, from as int) < s@.len() && a == skip_ws(
            s@,
            from as int,
        ) && e == word_end(s@, a as int),
        r is None ==> skip_ws(s@, from as int) >= s@.len(),
{
    let mut a = from;
    while a < s.len() && (s[a] == 32 || s[a] == 9 || s[a] == 10 || s[a] == 12 || s[a] == 13)
        invariant
            from <= a <= s@.len(),
            skip_ws(s@, from as int) == skip_ws(s@, a as int),
        decreases s@.len() - a,
    {
        a = a + 1;
    }
    if a >= s.len() {
        return None;
    }
    let mut e = a;
    while e < s.len() && !(s[e] == 32 || s[e] == 9 || s[e] == 10 || s[e] == 12 || s[e] == 13)
        invariant
            a <= e <= s@.len(),
            word_end(s@, a as int) == word_end(s@, e as int),
        decreases s@.len() - e,
    {
        e = e + 1;
    }
    Some((a, e))
}

/// Spans of the first `n` words (fewer if the line has fewer).
pub fn token_spans(s: &[u8], n: usize) -> (r: Vec<(usize, usize)>)
    ensures
        r@.len() <= n,
        forall|k: int|
            0 <= k < r@.len() ==> token_span(s@, k as nat) == Some(
                ((#[trigger] r@[k]).0 as int, r@[k].1 as int),
            ),
        r@.len() < n ==> token_span(s@, r@.len()) is None,
{
    let mut r: Vec<(usize, usize)> = Vec::new();
    let mut from: usize = 0;
    while r.len() < n
        invariant
            from <= s@.len(),
            r@.len() <= n,
            forall|k: int|
                0 <= k < r@.len() ==> token_span(s@, k as nat) == Some(
                    ((#[trigger] r@[k]).0 as int, r@[k].1 as int),
                ),
            r@.len() == 0 ==> from == 0,
            r@.len() > 0 ==> from == r@[r@.len() - 1].1,
        decreases n - r@.len(),
    {
        let k = r.len();
        proof {
            if k > 0 {
                lemma_token_span(s@, (k - 1) as nat);
            }
            reveal_with_fuel(token_span, 2);
        }
        match next_span(s, from) {
            Some((a, e)) => {
                proof {
                    lemma_word_end_bounds(s@, a as int);
                }
                r.push((a, e));
                from = e;
            },
            None => {
                return r;
            },
        }
    }
    r
}

} // verus!
