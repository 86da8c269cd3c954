//! Shared text utilities: character access, the whitespace tokenizer used by
//! both the line parser and the renderer, and case-insensitive matching.

use vstd::prelude::*;
use vstd::string::StrSliceExecFns;
use crate::spec_is_space;
use crate::is_space;

verus! {

/// First index `>= i` that is not a space, or the end of `s`.
pub open spec fn skip_ws(s: Seq<char>, i: int) -> int
    decreases s.len() - i when 0 <= i <= s.len()
{
    if i >= s.len() || !spec_is_space(s[i]) {
        i
    } else {
        skip_ws(s, i + 1)
    }
}

/// First index `>= i` that is a space, or the end of `s`.
pub open spec fn skip_tok(s: Seq<char>, i: int) -> int
    decreases s.len() - i when 0 <= i <= s.len()
{
    if i >= s.len() || spec_is_space(s[i]) {
        i
    } else {
        skip_tok(s, i + 1)
    }
}

pub proof fn lemma_skip_ws_bounds(s: Seq<char>, i: int)
    requires
        0 <= i <= s.len(),
    ensures
        i <= skip_ws(s, i) <= s.len(),
        forall|k: int| i <= k < skip_ws(s, i) ==> spec_is_space(s[k]),
        skip_ws(s, i) < s.len() ==> !spec_is_space(s[skip_ws(s, i)]),
    decreases s.len() - i,
{
    if i < s.len() && spec_is_space(s[i]) {
        lemma_skip_ws_bounds(s, i + 1);
    }
}

pub proof fn lemma_skip_tok_bounds(s: Seq<char>, i: int)
    requires
        0 <= i <= s.len(),
    ensures
        i <= skip_tok(s, i) <= s.len(),
        forall|k: int| i <= k < skip_tok(s, i) ==> !spec_is_space(s[k]),
        skip_tok(s, i) < s.len() ==> spec_is_space(s[skip_tok(s, i)]),
    decreases s.len() - i,
{
    if i < s.len() && !spec_is_space(s[i]) {
        lemma_skip_tok_bounds(s, i + 1);
    }
}

/// Spans `(start, end)` of the whitespace-delimited tokens of `s`,
/// starting the scan at `i`.
pub open spec fn spans_from(s: Seq<char>, i: int) -> Seq<(int, int)>
    decreases s.len() - i when 0 <= i <= s.len() via spans_from_decreases
{
    let j = skip_ws(s, i);
    if j >= s.len() {
        Seq::empty()
    } else {
        let k = skip_tok(s, j);
        seq![(j, k)] + spans_from(s, k)
    }
}

#[via_fn]
proof fn spans_from_decreases(s: Seq<char>, i: int) {
    lemma_skip_ws_bounds(s, i);
    let j = skip_ws(s, i);
    if j < s.len() {
        lemma_skip_tok_bounds(s, j);
    }
}

/// Spans of all tokens of `s`.
pub open spec fn token_spans(s: Seq<char>) -> Seq<(int, int)> {
    spans_from(s, 0)
}

/// The whitespace-delimited tokens of `s`.
pub open spec fn tokens_of(s: Seq<char>) -> Seq<Seq<char>> {
    token_spans(s).map_values(|sp: (int, int)| s.subrange(sp.0, sp.1))
}

/// Every span returned by `spans_from` is a maximal run of non-space
/// characters within the bounds of `s`.
pub proof fn lemma_spans_from_wf(s: Seq<char>, i: int)
    requires
        0 <= i <= s.len(),
    ensures
        forall|t: int|
            0 <= t < spans_from(s, i).len() ==> {
                let sp = #[trigger] spans_from(s, i)[t];
                i <= sp.0 < sp.1 <= s.len()
            },
    decreases s.len() - i,
{
    lemma_skip_ws_bounds(s, i);
    let j = skip_ws(s, i);
    if j < s.len() {
        lemma_skip_tok_bounds(s, j);
        let k = skip_tok(s, j);
        lemma_spans_from_wf(s, k);
        assert forall|t: int| 0 <= t < spans_from(s, i).len() implies {
            let sp = #[trigger] spans_from(s, i)[t];
            i <= sp.0 < sp.1 <= s.len()
        } by {
            if t > 0 {
                assert(spans_from(s, i)[t] == spans_from(s, k)[t - 1]);
            }
        }
    }
}

/// Distinct spans do not overlap: an earlier token ends before a later
/// one starts.
pub proof fn lemma_spans_from_ordered(s: Seq<char>, i: int)
    requires
        0 <= i <= s.len(),
    ensures
        forall|t1: int, t2: int|
            0 <= t1 < t2 < spans_from(s, i).len() ==> #[trigger] spans_from(s, i)[t1].1
                <= #[trigger] spans_from(s, i)[t2].0,
    decreases s.len() - i,
{
    lemma_skip_ws_bounds(s, i);
    let j = skip_ws(s, i);
    if j < s.len() {
        lemma_skip_tok_bounds(s, j);
        let k = skip_tok(s, j);
        lemma_spans_from_ordered(s, k);
        lemma_spans_from_wf(s, k);
        assert forall|t1: int, t2: int| 0 <= t1 < t2 < spans_from(s, i).len() implies #[trigger] spans_from(
            s,
            i,
        )[t1].1 <= #[trigger] spans_from(s, i)[t2].0 by {
            assert(spans_from(s, i)[t2] == spans_from(s, k)[t2 - 1]);
            if t1 == 0 {
                assert(spans_from(s, i)[0].1 == k);
            } else {
                assert(spans_from(s, i)[t1] == spans_from(s, k)[t1 - 1]);
            }
        }
    }
}

/// Collect the characters of a string slice into a vector.
pub fn str_chars(s: &str) -> (v: Vec<char>)
    ensures
        v@ == s@,
{
    let n = s.unicode_len();
    let mut v: Vec<char> = Vec::new();
    let mut i: usize = 0;
    while i < n
        invariant
            n == s@.len(),
            0 <= i <= n,
            v@ == s@.subrange(0, i as int),
        decreases n - i,
    {
        let c = s.get_char(i);
        v.push(c);
        i = i + 1;
        proof {
            assert(v@ =~= s@.subrange(0, i as int));
        }
    }
    proof {
        assert(v@ =~= s@);
    }
    v
}

/// First index `>= from` holding a non-space character, executably.
pub fn find_non_space(v: &Vec<char>, from: usize) -> (j: usize)
    requires
        from <= v@.len(),
    ensures
        j == skip_ws(v@, from as int),
        from <= j <= v@.len(),
{
    proof {
        lemma_skip_ws_bounds(v@, from as int);
    }
    let mut i = from;
    while i < v.len() && is_space(v[i])
        invariant
            from <= i <= v@.len(),
            skip_ws(v@, from as int) == skip_ws(v@, i as int),
        decreases v@.len() - i,
    {
        i = i + 1;
    }
    i
}

/// First index `>= from` holding a space character, executably.
pub fn find_space(v: &Vec<char>, from: usize) -> (j: usize)
    requires
        from <= v@.len(),
    ensures
        j == skip_tok(v@, from as int),
        from <= j <= v@.len(),
{
    proof {
        lemma_skip_tok_bounds(v@, from as int);
    }
    let mut i = from;
    while i < v.len() && !is_space(v[i])
        invariant
            from <= i <= v@.len(),
            skip_tok(v@, from as int) == skip_tok(v@, i as int),
        decreases v@.len() - i,
    {
        i = i + 1;
    }
    i
}

/// View of a vector of index pairs as mathematical spans.
pub open spec fn spans_view(spans: Seq<(usize, usize)>) -> Seq<(int, int)> {
    spans.map_values(|p: (usize, usize)| (p.0 as int, p.1 as int))
}

/// Compute the token spans of `v`, exactly as [`token_spans`] describes them.
pub fn tokenize(v: &Vec<char>) -> (spans: Vec<(usize, usize)>)
    ensures
        spans_view(spans@) == token_spans(v@),
{
    let mut spans: Vec<(usize, usize)> = Vec::new();
    let mut i: usize = 0;
    while i < v.len()
        invariant
            0 <= i <= v@.len(),
            token_spans(v@) =~= spans_view(spans@) + spans_from(v@, i as int),
        decreases v@.len() - i,
    {
        let j = find_non_space(v, i);
        if j < v.len() {
            let k = find_space(v, j);
            proof {
                lemma_skip_ws_bounds(v@, i as int);
                lemma_skip_tok_bounds(v@, j as int);
                assert(k > j) by {
                    if k == j {
                        assert(spec_is_space(v@[j as int]));
                        assert(!spec_is_space(v@[skip_ws(v@, i as int)]));
                    }
                }
                assert(spans_from(v@, i as int) == seq![(j as int, k as int)] + spans_from(
                    v@,
                    k as int,
                ));
            }
            spans.push((j, k));
            proof {
                assert(spans_view(spans@) =~= spans_view(spans@.drop_last()).push(
                    (j as int, k as int),
                ));
                assert(token_spans(v@) =~= spans_view(spans@) + spans_from(v@, k as int));
            }
            i = k;
        } else {
            proof {
                assert(spans_from(v@, i as int) =~= Seq::<(int, int)>::empty());
                assert(token_spans(v@) =~= spans_view(spans@) + spans_from(v@, j as int));
            }
            i = j;
        }
    }
    proof {
        assert(spans_from(v@, i as int) =~= Seq::<(int, int)>::empty());
        assert(token_spans(v@) =~= spans_view(spans@));
    }
    spans
}

/// Tokens joined by single spaces.
pub open spec fn join_with_spaces(toks: Seq<Seq<char>>) -> Seq<char>
    decreases toks.len(),
{
    if toks.len() == 0 {
        Seq::empty()
    } else if toks.len() == 1 {
        toks[0]
    } else {
        toks[0] + seq![' '] + join_with_spaces(toks.drop_first())
    }
}

/// The whitespace-normalized form of `s`: its tokens joined by single
/// spaces.
pub open spec fn normalized(s: Seq<char>) -> Seq<char> {
    join_with_spaces(tokens_of(s))
}

/// Joining one more token appends a separating space (except for the first
/// token) and then the token.
pub proof fn lemma_join_take(toks: Seq<Seq<char>>, k: int)
    requires
        0 <= k < toks.len(),
    ensures
        join_with_spaces(toks.take(k + 1)) == join_with_spaces(toks.take(k)) + (if k == 0 {
            toks[0]
        } else {
            seq![' '] + toks[k]
        }),
    decreases k,
{
    if k == 0 {
        assert(toks.take(1) =~= seq![toks[0]]);
        assert(join_with_spaces(toks.take(0)) + toks[0] =~= toks[0]);
    } else {
        let dt = toks.drop_first();
        lemma_join_take(dt, k - 1);
        assert(toks.take(k + 1).drop_first() =~= dt.take(k));
        assert(toks.take(k).drop_first() =~= dt.take(k - 1));
        if k == 1 {
            assert(join_with_spaces(toks.take(2)) =~= toks[0] + seq![' '] + toks[1]);
            assert(join_with_spaces(toks.take(1)) + (seq![' '] + toks[1]) =~= toks[0] + seq![' ']
                + toks[1]);
        } else {
            assert(join_with_spaces(toks.take(k + 1)) =~= toks[0] + seq![' ']
                + join_with_spaces(dt.take(k)));
            assert(join_with_spaces(dt.take(k)) =~= join_with_spaces(dt.take(k - 1)) + (seq![' ']
                + dt[k - 1]));
            assert(join_with_spaces(toks.take(k)) =~= toks[0] + seq![' '] + join_with_spaces(
                dt.take(k - 1),
            ));
            assert(join_with_spaces(toks.take(k + 1)) =~= join_with_spaces(toks.take(k)) + (
            seq![' '] + toks[k]));
        }
    }
}

/// Build the whitespace-normalized form of `v`: its tokens joined by
/// single spaces.
pub fn normalize_chars(v: &Vec<char>) -> (r: String)
    ensures
        r@ == normalized(v@),
{
    let ghost toks = tokens_of(v@);
    let spans = tokenize(v);
    proof {
        lemma_spans_from_wf(v@, 0);
        assert forall|t: int| 0 <= t < spans@.len() implies {
            &&& token_spans(v@)[t] == (spans@[t].0 as int, spans@[t].1 as int)
            &&& spans@[t].0 < spans@[t].1 <= v@.len()
        } by {
            assert(token_spans(v@)[t] == spans_view(spans@)[t]);
        }
    }
    let mut r = String::new();
    let mut k: usize = 0;
    while k < spans.len()
        invariant
            0 <= k <= spans@.len(),
            spans@.len() == toks.len(),
            toks == tokens_of(v@),
            spans_view(spans@) == token_spans(v@),
            forall|t: int|
                0 <= t < spans@.len() ==> {
                    &&& token_spans(v@)[t] == ((#[trigger] spans@[t]).0 as int, spans@[t].1 as int)
                    &&& spans@[t].0 < spans@[t].1 <= v@.len()
                },
            r@ == join_with_spaces(toks.take(k as int)),
        decreases spans@.len() - k,
    {
        proof {
            lemma_join_take(toks, k as int);
        }
        if k > 0 {
            push_char(&mut r, ' ');
        }
        let sp = spans[k];
        let ghost r_before = r@;
        proof {
            assert(r_before + v@.subrange(spans@[k as int].0 as int, spans@[k as int].0 as int)
                =~= r_before);
        }
        let mut i = sp.0;
        while i < sp.1
            invariant
                sp.0 <= i <= sp.1 <= v@.len(),
                r@ == r_before + v@.subrange(sp.0 as int, i as int),
            decreases sp.1 - i,
        {
            push_char(&mut r, v[i]);
            i = i + 1;
            proof {
                assert(r@ =~= r_before + v@.subrange(sp.0 as int, i as int));
            }
        }
        proof {
            assert(toks[k as int] =~= v@.subrange(
                spans@[k as int].0 as int,
                spans@[k as int].1 as int,
            ));
            assert(r@ =~= join_with_spaces(toks.take(k + 1)));
        }
        k = k + 1;
    }
    proof {
        assert(toks.take(spans@.len() as int) =~= toks);
    }
    r
}

/// Are two string slices equal, character for character?
pub fn str_eq_x(a: &str, b: &str) -> (r: bool)
    ensures
        r == (a@ == b@),
{
    let av = str_chars(a);
    let bv = str_chars(b);
    if av.len() != bv.len() {
        return false;
    }
    let mut i: usize = 0;
    while i < av.len()
        invariant
            av@ == a@,
            bv@ == b@,
            av@.len() == bv@.len(),
            0 <= i <= av@.len(),
            forall|j: int| 0 <= j < i ==> av@[j] == bv@[j],
        decreases av@.len() - i,
    {
        if av[i] != bv[i] {
            assert(a@[i as int] != b@[i as int]);
            return false;
        }
        i = i + 1;
    }
    proof {
        assert(a@ =~= b@);
    }
    true
}

/// Relies on `String::push`: appends one character to the string.
#[verifier::external_body]
pub fn push_char(s: &mut String, c: char)
    ensures
        final(s)@ == old(s)@.push(c),
{
    s.push(c)
}

/// Build a string from the characters `v[from..to]`.
pub fn chars_string(v: &Vec<char>, from: usize, to: usize) -> (s: String)
    requires
        from <= to <= v@.len(),
    ensures
        s@ == v@.subrange(from as int, to as int),
{
    let mut s = String::new();
    let mut i: usize = from;
    while i < to
        invariant
            from <= i <= to <= v@.len(),
            s@ == v@.subrange(from as int, i as int),
        decreases to - i,
    {
        push_char(&mut s, v[i]);
        i = i + 1;
        proof {
            assert(s@ =~= v@.subrange(from as int, i as int));
        }
    }
    proof {
        assert(s@ =~= v@.subrange(from as int, to as int));
    }
    s
}

} // verus!
