//! The filter term language.
//!
//! A task passes a filter when it matches every term (AND); a term
//! starting with `-` is negative: the task must not match its remainder
//! (NOT).  A term's body takes one of two paths.  A body led by a project
//! or context sigil (`+` or `@`) belongs to the task notation, not to
//! regular-expression syntax: it is matched literally, alternative by
//! `|`-separated alternative (OR), case-insensitively on ASCII letters.
//! Every other body is one case-insensitive regular expression, `|` and
//! all; a body that does not compile is a malformed filter expression,
//! surfaced to the caller as an error rather than silently skipped.

use vstd::prelude::*;
use crate::text::{str_chars, chars_string};

verus! {

/// Case-folded code of a character: ASCII uppercase letters map to their
/// lowercase counterparts, all else to itself.
pub open spec fn lower_code(c: char) -> int {
    if 65 <= c as u32 <= 90 {
        c as u32 + 32
    } else {
        c as u32 as int
    }
}

/// Character equality, case-insensitive when `ci` holds.
pub open spec fn chr_eq(a: char, b: char, ci: bool) -> bool {
    if ci {
        lower_code(a) == lower_code(b)
    } else {
        a == b
    }
}

/// `pat` occurs in `text` starting at position `k`.
pub open spec fn matches_at(text: Seq<char>, pat: Seq<char>, k: int, ci: bool) -> bool {
    &&& 0 <= k
    &&& k + pat.len() <= text.len()
    &&& forall|j: int| 0 <= j < pat.len() ==> chr_eq(text[k + j], pat[j], ci)
}

/// `pat` occurs somewhere in `text`.
pub open spec fn contains_pat(text: Seq<char>, pat: Seq<char>, ci: bool) -> bool {
    exists|k: int| matches_at(text, pat, k, ci)
}

/// Executable case-folded character code.
pub fn lower_code_x(c: char) -> (r: u32)
    ensures
        r as int == lower_code(c),
{
    let u = c as u32;
    if 65 <= u && u <= 90 {
        u + 32
    } else {
        u
    }
}

/// Executable character equality under the chosen folding.
fn chr_eq_x(a: char, b: char, ci: bool) -> (r: bool)
    ensures
        r == chr_eq(a, b, ci),
{
    if ci {
        lower_code_x(a) == lower_code_x(b)
    } else {
        a == b
    }
}

/// Substring search: does `pat` occur in `text`?
pub fn contains_chars(text: &Vec<char>, pat: &Vec<char>, ci: bool) -> (r: bool)
    ensures
        r == contains_pat(text@, pat@, ci),
{
    if pat.len() > text.len() {
        assert(!contains_pat(text@, pat@, ci));
        return false;
    }
    if pat.len() == 0 {
        assert(matches_at(text@, pat@, 0, ci));
        return true;
    }
    let last = text.len() - pat.len();
    let mut k: usize = 0;
    while k <= last
        invariant
            0 < pat@.len() <= text@.len(),
            text@.len() <= usize::MAX,
            last == text@.len() - pat@.len(),
            0 <= k <= last + 1,
            forall|k2: int| 0 <= k2 < k ==> !matches_at(text@, pat@, k2, ci),
        decreases last - k + 1,
    {
        let mut j: usize = 0;
        let mut hit = true;
        while j < pat.len() && hit
            invariant
                0 <= j <= pat@.len(),
                k + pat@.len() <= text@.len(),
                text@.len() <= usize::MAX,
                hit ==> forall|j2: int| 0 <= j2 < j ==> chr_eq(text@[k + j2], pat@[j2], ci),
                !hit ==> !matches_at(text@, pat@, k as int, ci),
            decreases pat@.len() - j,
        {
            if !chr_eq_x(text[k + j], pat[j], ci) {
                assert(!chr_eq(text@[k as int + j], pat@[j as int], ci));
                hit = false;
            }
            j = j + 1;
        }
        if hit {
            assert(matches_at(text@, pat@, k as int, ci));
            return true;
        }
        k = k + 1;
    }
    assert forall|k2: int| !matches_at(text@, pat@, k2, ci) by {
        if 0 <= k2 && k2 + pat@.len() <= text@.len() {
            assert(k2 < k);
        }
    }
    false
}

/// The `|`-separated segments of `s`, empty segments retained, scanning
/// from position `i`.
pub open spec fn split_bar_from(s: Seq<char>, i: int) -> Seq<Seq<char>>
    decreases s.len() - i when 0 <= i <= s.len() via split_bar_from_decreases
{
    let j = next_bar(s, i);
    if j < s.len() {
        seq![s.subrange(i, j)] + split_bar_from(s, j + 1)
    } else {
        seq![s.subrange(i, s.len() as int)]
    }
}

/// First index `>= i` holding `|`, or the end of `s`.
pub open spec fn next_bar(s: Seq<char>, i: int) -> int
    decreases s.len() - i when 0 <= i <= s.len()
{
    if i >= s.len() || s[i] == '|' {
        i
    } else {
        next_bar(s, i + 1)
    }
}

pub proof fn lemma_next_bar_bounds(s: Seq<char>, i: int)
    requires
        0 <= i <= s.len(),
    ensures
        i <= next_bar(s, i) <= s.len(),
        next_bar(s, i) < s.len() ==> s[next_bar(s, i)] == '|',
        forall|k: int| i <= k < next_bar(s, i) ==> s[k] != '|',
    decreases s.len() - i,
{
    if i < s.len() && s[i] != '|' {
        lemma_next_bar_bounds(s, i + 1);
    }
}

#[via_fn]
proof fn split_bar_from_decreases(s: Seq<char>, i: int) {
    lemma_next_bar_bounds(s, i);
}

/// Some alternative of `term`, split from position `from` on, occurs in
/// `raw`, case-insensitively.
pub open spec fn matches_from(term: Seq<char>, from: int, raw: Seq<char>) -> bool {
    exists|a: int|
        0 <= a < split_bar_from(term, from).len() && contains_pat(
            raw,
            split_bar_from(term, from)[a],
            true,
        )
}

/// A term starting with `-` is negative.
pub open spec fn term_is_negative(term: Seq<char>) -> bool {
    term.len() > 0 && term[0] == '-'
}

/// Index where a term's body starts: past the `-` of a negative term.
pub open spec fn term_body_start(term: Seq<char>) -> int {
    if term_is_negative(term) {
        1
    } else {
        0
    }
}

/// A term whose body is led by a project or context sigil is matched
/// literally; any other term is a regular expression.
pub open spec fn term_is_literal(term: Seq<char>) -> bool {
    let b = term_body_start(term);
    b < term.len() && (term[b] == '+' || term[b] == '@')
}

/// Whether `regex::RegexBuilder::build` with the case-insensitive flag
/// accepts a pattern; a function of the pattern alone.
pub uninterp spec fn regex_ci_ok(pat: Seq<char>) -> bool;

/// Whether a pattern compiled case-insensitively matches anywhere in a
/// text; a function of pattern and text alone.
pub uninterp spec fn regex_ci_match(pat: Seq<char>, text: Seq<char>) -> bool;

/// A term is well formed when it is literal, or its body compiles as a
/// regular expression.  A filter with an ill-formed term is a malformed
/// filter expression.
pub open spec fn term_wf(term: Seq<char>) -> bool {
    term_is_literal(term) || regex_ci_ok(term.skip(term_body_start(term)))
}

/// Every term of the filter is well formed.
pub open spec fn terms_wf(terms: Seq<Seq<char>>) -> bool {
    forall|i: int| 0 <= i < terms.len() ==> term_wf(#[trigger] terms[i])
}

/// Whether a term's body matches a raw line: literally for sigil-led
/// bodies, as a case-insensitive regular expression for the rest.
pub open spec fn term_matched(term: Seq<char>, raw: Seq<char>) -> bool {
    if term_is_literal(term) {
        matches_from(term, term_body_start(term), raw)
    } else {
        regex_ci_match(term.skip(term_body_start(term)), raw)
    }
}

/// A raw line passes one term: it matches a positive term, and does not
/// match the body of a negative term.
pub open spec fn passes_term(raw: Seq<char>, term: Seq<char>) -> bool {
    if term_is_negative(term) {
        !term_matched(term, raw)
    } else {
        term_matched(term, raw)
    }
}

/// A raw line passes a filter when it passes every term.  No term at all
/// retains everything.
pub open spec fn passes_filter(raw: Seq<char>, terms: Seq<Seq<char>>) -> bool {
    forall|i: int| 0 <= i < terms.len() ==> passes_term(raw, #[trigger] terms[i])
}

/// A pattern compiled case-insensitively, together with the pattern text
/// it was built from.  Only [`compile_regex_ci`] constructs one, so the
/// two always agree.
#[derive(Debug)]
pub struct CompiledRegexCi {
    re: regex::Regex,
    /// The pattern this value was compiled from.
    pat: String,
}

/// Relies on `regex::RegexBuilder::build` with `case_insensitive(true)`:
/// whether compiling succeeds depends on the pattern alone.
#[verifier::external_body]
fn compile_regex_ci(pat: &str) -> (r: Option<CompiledRegexCi>)
    ensures
        (r is Some) == regex_ci_ok(pat@),
        r matches Some(c) ==> c.pat@ == pat@,
{
    match regex::RegexBuilder::new(pat).case_insensitive(true).build() {
        Ok(re) => Some(CompiledRegexCi { re, pat: pat.to_string() }),
        Err(_) => None,
    }
}

/// Relies on `regex::Regex::is_match` on a pattern compiled
/// case-insensitively: whether the pattern matches anywhere in the text,
/// a function of pattern and text alone.
#[verifier::external_body]
fn regex_ci_is_match(c: &CompiledRegexCi, text: &str) -> (r: bool)
    ensures
        r == regex_ci_match(c.pat@, text@),
{
    c.re.is_match(text)
}

/// Does any alternative of `body`, split from position `from` on, occur
/// in `raw`?
fn body_matches_x(body: &Vec<char>, from: usize, raw: &Vec<char>) -> (r: bool)
    requires
        from <= body@.len(),
    ensures
        r == matches_from(body@, from as int, raw@),
    decreases body@.len() - from,
{
    proof {
        lemma_next_bar_bounds(body@, from as int);
    }
    let mut j = from;
    while j < body.len() && body[j] != '|'
        invariant
            from <= j <= body@.len(),
            next_bar(body@, from as int) == next_bar(body@, j as int),
        decreases body@.len() - j,
    {
        j = j + 1;
    }
    let mut alt: Vec<char> = Vec::new();
    let mut i = from;
    while i < j
        invariant
            from <= i <= j <= body@.len(),
            alt@ == body@.subrange(from as int, i as int),
        decreases j - i,
    {
        alt.push(body[i]);
        i = i + 1;
        proof {
            assert(alt@ =~= body@.subrange(from as int, i as int));
        }
    }
    proof {
        assert(alt@ =~= body@.subrange(from as int, j as int));
    }
    assert(j as int == next_bar(body@, from as int));
    let here = contains_chars(raw, &alt, true);
    if here {
        assert(split_bar_from(body@, from as int)[0] == body@.subrange(from as int, j as int));
        return true;
    }
    if j < body.len() {
        let rest = body_matches_x(body, j + 1, raw);
        proof {
            let s = split_bar_from(body@, from as int);
            let t = split_bar_from(body@, j + 1);
            assert(s =~= seq![body@.subrange(from as int, j as int)] + t);
            if rest {
                let a = choose|a: int| 0 <= a < t.len() && contains_pat(raw@, t[a], true);
                assert(s[a + 1] == t[a]);
                assert(contains_pat(raw@, s[a + 1], true));
            } else if matches_from(body@, from as int, raw@) {
                let a = choose|a: int| 0 <= a < s.len() && contains_pat(raw@, s[a], true);
                assert(a > 0);
                assert(t[a - 1] == s[a]);
                assert(contains_pat(raw@, t[a - 1], true));
            }
        }
        rest
    } else {
        proof {
            assert(split_bar_from(body@, from as int) =~= seq![
                body@.subrange(from as int, body@.len() as int),
            ]);
        }
        false
    }
}

/// Is every term of the filter well formed?  An ill-formed term is one
/// that is not sigil-led and whose body the regular-expression engine
/// rejects.
pub fn terms_well_formed(terms: &[String]) -> (r: bool)
    ensures
        r == terms_wf(crate::task::views_of(terms@)),
{
    let ghost tviews = crate::task::views_of(terms@);
    let mut i: usize = 0;
    while i < terms.len()
        invariant
            0 <= i <= terms@.len(),
            tviews == crate::task::views_of(terms@),
            forall|k: int| 0 <= k < i ==> term_wf(#[trigger] tviews[k]),
        decreases terms@.len() - i,
    {
        let t = str_chars(terms[i].as_str());
        let neg = t.len() > 0 && t[0] == '-';
        let b: usize = if neg {
            1
        } else {
            0
        };
        let lit = b < t.len() && (t[b] == '+' || t[b] == '@');
        assert(lit == term_is_literal(tviews[i as int]));
        if !lit {
            let body = chars_string(&t, b, t.len());
            proof {
                assert(body@ =~= tviews[i as int].skip(b as int));
            }
            if compile_regex_ci(body.as_str()).is_none() {
                assert(!term_wf(tviews[i as int]));
                return false;
            }
        }
        i = i + 1;
    }
    true
}

/// Does the raw line pass this one term?  The term must be well formed;
/// [`terms_well_formed`] decides that first, without this requirement.
pub fn passes_term_x(raw: &Vec<char>, raw_str: &str, term: &str) -> (r: bool)
    requires
        term_wf(term@),
        raw@ == raw_str@,
    ensures
        r == passes_term(raw@, term@),
{
    let t = str_chars(term);
    let neg = t.len() > 0 && t[0] == '-';
    let b: usize = if neg {
        1
    } else {
        0
    };
    let lit = b < t.len() && (t[b] == '+' || t[b] == '@');
    assert(lit == term_is_literal(term@));
    let matched = if lit {
        body_matches_x(&t, b, raw)
    } else {
        let body = chars_string(&t, b, t.len());
        proof {
            assert(body@ =~= term@.skip(b as int));
        }
        match compile_regex_ci(body.as_str()) {
            Some(c) => regex_ci_is_match(&c, raw_str),
            None => {
                proof {
                    assert(false);
                }
                false
            },
        }
    };
    proof {
        if lit {
            assert(matched == term_matched(term@, raw@));
        }
    }
    if neg {
        !matched
    } else {
        matched
    }
}

/// A stretch of `s` from `i` on holds no `|`: the scan for one runs to
/// the end.
proof fn lemma_next_bar_none(s: Seq<char>, i: int)
    requires
        0 <= i <= s.len(),
        forall|k: int| i <= k < s.len() ==> s[k] != '|',
    ensures
        next_bar(s, i) == s.len(),
    decreases s.len() - i,
{
    if i < s.len() {
        lemma_next_bar_none(s, i + 1);
    }
}

/// A term without alternation bars, split from `from` on, has exactly one
/// alternative: its remaining text.
proof fn lemma_single_alternative(term: Seq<char>, from: int)
    requires
        0 <= from <= term.len(),
        forall|k: int| from <= k < term.len() ==> term[k] != '|',
    ensures
        split_bar_from(term, from) == seq![term.skip(from)],
{
    lemma_next_bar_none(term, from);
    assert(term.subrange(from, term.len() as int) =~= term.skip(from));
}

/// The AND/NOT law of the filter language: under one positive sigil-led
/// term and one negative sigil-led term, neither carrying an alternation
/// bar, a line passes the filter exactly when it contains the positive
/// term and does not contain the body of the negative term,
/// case-insensitively.
pub proof fn lemma_filter_and_not(raw: Seq<char>, pos: Seq<char>, neg: Seq<char>)
    requires
        pos.len() > 0,
        pos[0] == '+' || pos[0] == '@',
        forall|k: int| 0 <= k < pos.len() ==> pos[k] != '|',
        neg.len() > 1,
        neg[0] == '-',
        neg[1] == '+' || neg[1] == '@',
        forall|k: int| 1 <= k < neg.len() ==> neg[k] != '|',
    ensures
        passes_filter(raw, seq![pos, neg]) <==> (contains_pat(raw, pos, true) && !contains_pat(
            raw,
            neg.skip(1),
            true,
        )),
{
    let terms = seq![pos, neg];
    assert(term_is_literal(pos));
    assert(term_is_literal(neg));
    lemma_single_alternative(pos, 0);
    assert(pos.skip(0) =~= pos);
    lemma_single_alternative(neg, 1);
    assert(passes_term(raw, pos) <==> contains_pat(raw, pos, true)) by {
        assert(split_bar_from(pos, 0)[0] == pos);
    }
    assert(passes_term(raw, neg) <==> !contains_pat(raw, neg.skip(1), true)) by {
        assert(split_bar_from(neg, 1)[0] == neg.skip(1));
    }
    assert(terms[0] == pos);
    assert(terms[1] == neg);
    if passes_term(raw, pos) && passes_term(raw, neg) {
        assert forall|i: int| 0 <= i < terms.len() implies passes_term(raw, #[trigger] terms[i]) by {
            if i == 0 {
            } else {
                assert(terms[i] == neg);
            }
        }
    }
}

/// Does the raw line pass every well-formed term of the filter?
pub fn passes_filter_x(raw: &Vec<char>, raw_str: &str, terms: &[String]) -> (r: bool)
    requires
        terms_wf(crate::task::views_of(terms@)),
        raw@ == raw_str@,
    ensures
        r == passes_filter(raw@, crate::task::views_of(terms@)),
{
    let ghost tviews = crate::task::views_of(terms@);
    let mut i: usize = 0;
    while i < terms.len()
        invariant
            0 <= i <= terms@.len(),
            tviews == crate::task::views_of(terms@),
            terms_wf(tviews),
            raw@ == raw_str@,
            forall|k: int| 0 <= k < i ==> passes_term(raw@, #[trigger] tviews[k]),
        decreases terms@.len() - i,
    {
        assert(term_wf(tviews[i as int]));
        let ok = passes_term_x(raw, raw_str, terms[i].as_str());
        if !ok {
            assert(!passes_term(raw@, tviews[i as int]));
            return false;
        }
        i = i + 1;
    }
    true
}

} // verus!
