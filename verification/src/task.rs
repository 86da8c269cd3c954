//! The task record and the line parser.
//!
//! One line of a task file becomes one [`Task`]: the exact original text in
//! `raw`, plus structured fields derived from it.  [`parse_line`] is the
//! mathematical model of that derivation; the executable parser is proved to
//! return exactly what the model says, so re-deriving the fields from `raw`
//! is idempotent by construction.

use vstd::prelude::*;
use crate::date::{Date, parse_date};
use crate::text::{
    token_spans, tokenize, str_chars, chars_string, spans_view, lemma_spans_from_wf,
    lemma_spans_from_ordered,
};

verus! {

/// Priority rank given to tasks without a priority letter: it sorts after
/// every lettered priority (`A` is rank 0, `Z` is rank 25).
pub const NO_PRIORITY: u8 = 26;

/// Structured fields derived from one line.
#[derive(Debug)]
pub struct ParsedTask {
    /// The line is marked completed by a leading `x` token.
    pub finished: bool,
    /// Priority rank: 0 through 25 for letters `A` through `Z`,
    /// [`NO_PRIORITY`] when the line carries no priority token.
    pub priority: u8,
    /// Completion date, present only on completed lines with two dates.
    pub finish_date: Option<Date>,
    /// Creation date.
    pub create_date: Option<Date>,
    /// Date carried by a `due:` tag.
    pub due_date: Option<Date>,
    /// Date carried by a `t:` tag.
    pub threshold_date: Option<Date>,
    /// Free text after the completion/date/priority prefix, verbatim.
    pub subject: String,
    /// Bodies of `+` tokens of the subject, in first-occurrence order.
    pub projects: Vec<String>,
    /// Bodies of `@` tokens of the subject, in first-occurrence order.
    pub contexts: Vec<String>,
}

/// Mathematical value of a [`ParsedTask`].
pub ghost struct ParsedV {
    pub finished: bool,
    pub priority: u8,
    pub finish_date: Option<Date>,
    pub create_date: Option<Date>,
    pub due_date: Option<Date>,
    pub threshold_date: Option<Date>,
    pub subject: Seq<char>,
    pub projects: Seq<Seq<char>>,
    pub contexts: Seq<Seq<char>>,
}

/// Views of a sequence of strings.
pub open spec fn views_of(ss: Seq<String>) -> Seq<Seq<char>> {
    ss.map_values(|s: String| s@)
}

impl View for ParsedTask {
    type V = ParsedV;

    open spec fn view(&self) -> ParsedV {
        ParsedV {
            finished: self.finished,
            priority: self.priority,
            finish_date: self.finish_date,
            create_date: self.create_date,
            due_date: self.due_date,
            threshold_date: self.threshold_date,
            subject: self.subject@,
            projects: views_of(self.projects@),
            contexts: views_of(self.contexts@),
        }
    }
}

/// Number of tokens of `s`.
pub open spec fn ntoks(s: Seq<char>) -> int {
    token_spans(s).len() as int
}

/// The `k`-th token of `s`.
pub open spec fn tok_at(s: Seq<char>, k: int) -> Seq<char> {
    let sp = token_spans(s)[k];
    s.subrange(sp.0, sp.1)
}

/// The lone completion marker `x`.
pub open spec fn is_x_token(t: Seq<char>) -> bool {
    t.len() == 1 && t[0] == 'x'
}

/// A priority token `(X)` for an uppercase letter `X`.
pub open spec fn is_pri_token(t: Seq<char>) -> bool {
    t.len() == 3 && t[0] == '(' && 65 <= t[1] as u32 <= 90 && t[2] == ')'
}

/// Rank of the letter of a priority token.
pub open spec fn tok_priority(t: Seq<char>) -> u8 {
    (t[1] as u32 - 65) as u8
}

/// The `k`-th token of `s` read as a date, if it has that shape.
pub open spec fn tok_date(s: Seq<char>, k: int) -> Option<Date> {
    parse_date(tok_at(s, k))
}

/// The line is marked completed.
pub open spec fn spec_completed(s: Seq<char>) -> bool {
    ntoks(s) > 0 && is_x_token(tok_at(s, 0))
}

/// Index of the first token after the completion marker.
pub open spec fn idx_after_x(s: Seq<char>) -> int {
    if spec_completed(s) {
        1
    } else {
        0
    }
}

/// Two consecutive dates follow the completion marker.
pub open spec fn has_two_dates(s: Seq<char>) -> bool {
    &&& spec_completed(s)
    &&& idx_after_x(s) + 1 < ntoks(s)
    &&& tok_date(s, idx_after_x(s)) is Some
    &&& tok_date(s, idx_after_x(s) + 1) is Some
}

/// Completion date: only a completed line with two leading dates has one;
/// a single date is a creation date, resolved by position.
pub open spec fn spec_finish_date(s: Seq<char>) -> Option<Date> {
    if has_two_dates(s) {
        tok_date(s, idx_after_x(s))
    } else {
        None
    }
}

/// Creation date taken from the date tokens right after the completion
/// marker, before the priority token is considered.
pub open spec fn early_create_date(s: Seq<char>) -> Option<Date> {
    if has_two_dates(s) {
        tok_date(s, idx_after_x(s) + 1)
    } else if spec_completed(s) && idx_after_x(s) < ntoks(s) && tok_date(s, idx_after_x(s)) is Some {
        tok_date(s, idx_after_x(s))
    } else {
        None
    }
}

/// Index of the first token after the leading date tokens.
pub open spec fn idx_after_dates(s: Seq<char>) -> int {
    idx_after_x(s) + if has_two_dates(s) {
        2int
    } else if early_create_date(s) is Some {
        1int
    } else {
        0int
    }
}

/// A priority token is recognized next, completed or not.
pub open spec fn has_priority(s: Seq<char>) -> bool {
    idx_after_dates(s) < ntoks(s) && is_pri_token(tok_at(s, idx_after_dates(s)))
}

/// Priority rank of the line.
pub open spec fn spec_priority(s: Seq<char>) -> u8 {
    if has_priority(s) {
        tok_priority(tok_at(s, idx_after_dates(s)))
    } else {
        NO_PRIORITY
    }
}

/// Index of the first token after the priority token.
pub open spec fn idx_after_pri(s: Seq<char>) -> int {
    idx_after_dates(s) + if has_priority(s) {
        1int
    } else {
        0int
    }
}

/// A creation date follows the priority token and none was taken earlier.
pub open spec fn has_late_create(s: Seq<char>) -> bool {
    &&& early_create_date(s) is None
    &&& idx_after_pri(s) < ntoks(s)
    &&& tok_date(s, idx_after_pri(s)) is Some
}

/// Creation date of the line.
pub open spec fn spec_create_date(s: Seq<char>) -> Option<Date> {
    if early_create_date(s) is Some {
        early_create_date(s)
    } else if has_late_create(s) {
        tok_date(s, idx_after_pri(s))
    } else {
        None
    }
}

/// Index of the first subject token.
pub open spec fn idx_body(s: Seq<char>) -> int {
    idx_after_pri(s) + if has_late_create(s) {
        1int
    } else {
        0int
    }
}

/// The subject: the text of `s` from the first subject token to the end of
/// the last token, verbatim; empty when no token remains.
pub open spec fn spec_subject(s: Seq<char>) -> Seq<char> {
    let k = idx_body(s);
    let n = ntoks(s);
    if k < n {
        s.subrange(token_spans(s)[k].0, token_spans(s)[n - 1].1)
    } else {
        Seq::empty()
    }
}

/// Bodies of the subject tokens that begin with `tag` and have at least one
/// more character, in first-occurrence order, duplicates retained.
pub open spec fn collect_bodies(s: Seq<char>, k: int, n: int, tag: char) -> Seq<Seq<char>>
    decreases n - k when k <= n
{
    if k >= n {
        Seq::empty()
    } else {
        let rest = collect_bodies(s, k + 1, n, tag);
        let t = tok_at(s, k);
        if t.len() >= 2 && t[0] == tag {
            seq![t.subrange(1, t.len() as int)] + rest
        } else {
            rest
        }
    }
}

pub open spec fn spec_projects(s: Seq<char>) -> Seq<Seq<char>> {
    collect_bodies(s, idx_body(s), ntoks(s), '+')
}

pub open spec fn spec_contexts(s: Seq<char>) -> Seq<Seq<char>> {
    collect_bodies(s, idx_body(s), ntoks(s), '@')
}

/// The date of a `due:YYYY-MM-DD` token, if the token has that shape.
pub open spec fn due_tag_date(t: Seq<char>) -> Option<Date> {
    if t.len() > 4 && t[0] == 'd' && t[1] == 'u' && t[2] == 'e' && t[3] == ':' {
        parse_date(t.subrange(4, t.len() as int))
    } else {
        None
    }
}

/// The date of a `t:YYYY-MM-DD` token, if the token has that shape.
pub open spec fn threshold_tag_date(t: Seq<char>) -> Option<Date> {
    if t.len() > 2 && t[0] == 't' && t[1] == ':' {
        parse_date(t.subrange(2, t.len() as int))
    } else {
        None
    }
}

/// Scan the subject tokens for `due:` tags; a later well-formed tag
/// replaces an earlier one.
pub open spec fn scan_due(s: Seq<char>, k: int, n: int, acc: Option<Date>) -> Option<Date>
    decreases n - k when k <= n
{
    if k >= n {
        acc
    } else {
        scan_due(
            s,
            k + 1,
            n,
            if due_tag_date(tok_at(s, k)) is Some {
                due_tag_date(tok_at(s, k))
            } else {
                acc
            },
        )
    }
}

/// Scan the subject tokens for `t:` tags; a later well-formed tag replaces
/// an earlier one.
pub open spec fn scan_threshold(s: Seq<char>, k: int, n: int, acc: Option<Date>) -> Option<Date>
    decreases n - k when k <= n
{
    if k >= n {
        acc
    } else {
        scan_threshold(
            s,
            k + 1,
            n,
            if threshold_tag_date(tok_at(s, k)) is Some {
                threshold_tag_date(tok_at(s, k))
            } else {
                acc
            },
        )
    }
}

pub open spec fn spec_due_date(s: Seq<char>) -> Option<Date> {
    scan_due(s, idx_body(s), ntoks(s), None)
}

pub open spec fn spec_threshold_date(s: Seq<char>) -> Option<Date> {
    scan_threshold(s, idx_body(s), ntoks(s), None)
}

/// Whether the token `v[a..b]` is the completion marker.
fn span_is_x(v: &Vec<char>, a: usize, b: usize) -> (r: bool)
    requires
        a <= b <= v@.len(),
    ensures
        r == is_x_token(v@.subrange(a as int, b as int)),
{
    b - a == 1 && v[a] == 'x'
}

/// Whether the token `v[a..b]` is a priority token `(X)`.
fn span_is_pri(v: &Vec<char>, a: usize, b: usize) -> (r: bool)
    requires
        a <= b <= v@.len(),
    ensures
        r == is_pri_token(v@.subrange(a as int, b as int)),
{
    b - a == 3 && v[a] == '(' && 65 <= v[a + 1] as u32 && v[a + 1] as u32 <= 90 && v[a + 2] == ')'
}

/// The date of a `due:` tag token `v[a..b]`, if it has that shape.
fn span_due(v: &Vec<char>, a: usize, b: usize) -> (r: Option<Date>)
    requires
        a <= b <= v@.len(),
    ensures
        r == due_tag_date(v@.subrange(a as int, b as int)),
{
    let ghost t = v@.subrange(a as int, b as int);
    if b - a > 4 && v[a] == 'd' && v[a + 1] == 'u' && v[a + 2] == 'e' && v[a + 3] == ':' {
        proof {
            assert(t.subrange(4, t.len() as int) =~= v@.subrange(a + 4, b as int));
        }
        crate::date::parse_date_chars(v, a + 4, b)
    } else {
        None
    }
}

/// The date of a `t:` tag token `v[a..b]`, if it has that shape.
fn span_threshold(v: &Vec<char>, a: usize, b: usize) -> (r: Option<Date>)
    requires
        a <= b <= v@.len(),
    ensures
        r == threshold_tag_date(v@.subrange(a as int, b as int)),
{
    let ghost t = v@.subrange(a as int, b as int);
    if b - a > 2 && v[a] == 't' && v[a + 1] == ':' {
        proof {
            assert(t.subrange(2, t.len() as int) =~= v@.subrange(a + 2, b as int));
        }
        crate::date::parse_date_chars(v, a + 2, b)
    } else {
        None
    }
}

/// Parse one line of characters into its structured fields, exactly as
/// [`parse_line`] describes them.
pub fn parse_line_chars(v: &Vec<char>) -> (p: ParsedTask)
    ensures
        p@ == parse_line(v@),
{
    let ghost s = v@;
    let spans = tokenize(v);
    let n = spans.len();
    proof {
        lemma_spans_from_wf(s, 0);
        lemma_spans_from_ordered(s, 0);
        assert(ntoks(s) == n);
        assert forall|k: int| 0 <= k < n implies {
            &&& token_spans(s)[k] == (spans@[k].0 as int, spans@[k].1 as int)
            &&& spans@[k].0 < spans@[k].1 <= v@.len()
        } by {
            assert(token_spans(s)[k] == spans_view(spans@)[k]);
        }
    }
    // completion marker
    let completed = if n > 0 {
        let sp = spans[0];
        span_is_x(v, sp.0, sp.1)
    } else {
        false
    };
    assert(completed == spec_completed(s));
    let k1: usize = if completed {
        1
    } else {
        0
    };
    assert(k1 as int == idx_after_x(s));
    // leading dates on completed lines
    let mut finish_date: Option<Date> = None;
    let mut create_date: Option<Date> = None;
    let mut k2: usize = k1;
    if completed && k1 < n {
        let sp = spans[k1];
        let d1 = crate::date::parse_date_chars(v, sp.0, sp.1);
        assert(d1 == tok_date(s, k1 as int));
        if d1.is_some() {
            let two = if k1 + 1 < n {
                let sp2 = spans[k1 + 1];
                let d2 = crate::date::parse_date_chars(v, sp2.0, sp2.1);
                assert(d2 == tok_date(s, k1 + 1int));
                d2
            } else {
                None
            };
            if two.is_some() {
                finish_date = d1;
                create_date = two;
                k2 = k1 + 2;
                assert(has_two_dates(s));
            } else {
                create_date = d1;
                k2 = k1 + 1;
                assert(!has_two_dates(s));
            }
        } else {
            assert(!has_two_dates(s));
        }
    }
    assert(finish_date == spec_finish_date(s));
    assert(create_date == early_create_date(s));
    assert(k2 as int == idx_after_dates(s));
    // priority token
    let mut priority: u8 = NO_PRIORITY;
    let mut k3: usize = k2;
    if k2 < n {
        let sp = spans[k2];
        if span_is_pri(v, sp.0, sp.1) {
            priority = (v[sp.0 + 1] as u32 - 65) as u8;
            k3 = k2 + 1;
            assert(priority == tok_priority(tok_at(s, k2 as int)));
        }
    }
    assert(priority == spec_priority(s));
    assert(k3 as int == idx_after_pri(s));
    // late creation date
    let mut k4: usize = k3;
    if create_date.is_none() && k3 < n {
        let sp = spans[k3];
        let d = crate::date::parse_date_chars(v, sp.0, sp.1);
        assert(d == tok_date(s, k3 as int));
        if d.is_some() {
            create_date = d;
            k4 = k3 + 1;
        }
    }
    assert(create_date == spec_create_date(s));
    assert(k4 as int == idx_body(s));
    // subject text, verbatim
    let subject: String = if k4 < n {
        let first = spans[k4];
        let last = spans[n - 1];
        proof {
            if k4 < n - 1 {
                assert(token_spans(s)[k4 as int].1 <= token_spans(s)[n - 1].0);
            }
        }
        chars_string(v, first.0, last.1)
    } else {
        String::new()
    };
    assert(subject@ == spec_subject(s));
    // scan the subject tokens
    let mut projects: Vec<String> = Vec::new();
    let mut contexts: Vec<String> = Vec::new();
    let mut due_date: Option<Date> = None;
    let mut threshold_date: Option<Date> = None;
    let mut k: usize = k4;
    while k < n
        invariant
            idx_body(s) <= k <= n,
            n == ntoks(s),
            s == v@,
            spans_view(spans@) == token_spans(s),
            forall|t: int| 0 <= t < n ==> {
                &&& token_spans(s)[t] == (spans@[t].0 as int, spans@[t].1 as int)
                &&& spans@[t].0 < spans@[t].1 <= v@.len()
            },
            spec_projects(s) =~= views_of(projects@) + collect_bodies(s, k as int, n as int, '+'),
            spec_contexts(s) =~= views_of(contexts@) + collect_bodies(s, k as int, n as int, '@'),
            spec_due_date(s) == scan_due(s, k as int, n as int, due_date),
            spec_threshold_date(s) == scan_threshold(s, k as int, n as int, threshold_date),
        decreases n - k,
    {
        let sp = spans[k];
        let a = sp.0;
        let b = sp.1;
        let ghost t = tok_at(s, k as int);
        assert(t =~= v@.subrange(a as int, b as int));
        if b - a >= 2 && (v[a] == '+' || v[a] == '@') {
            let body = chars_string(v, a + 1, b);
            proof {
                assert(body@ =~= t.subrange(1, t.len() as int));
            }
            if v[a] == '+' {
                projects.push(body);
                proof {
                    assert(views_of(projects@) =~= views_of(projects@.drop_last()).push(
                        t.subrange(1, t.len() as int),
                    ));
                }
            } else {
                contexts.push(body);
                proof {
                    assert(views_of(contexts@) =~= views_of(contexts@.drop_last()).push(
                        t.subrange(1, t.len() as int),
                    ));
                }
            }
        }
        let d = span_due(v, a, b);
        if d.is_some() {
            due_date = d;
        }
        let h = span_threshold(v, a, b);
        if h.is_some() {
            threshold_date = h;
        }
        k = k + 1;
    }
    let p = ParsedTask {
        finished: completed,
        priority,
        finish_date,
        create_date,
        due_date,
        threshold_date,
        subject,
        projects,
        contexts,
    };
    proof {
        assert(views_of(p.projects@) =~= spec_projects(s));
        assert(views_of(p.contexts@) =~= spec_contexts(s));
    }
    p
}

/// The structured fields one line denotes.  Unparsable fragments never
/// fail the line: they are simply left out of the structured fields and
/// stay in the subject text.
pub open spec fn parse_line(s: Seq<char>) -> ParsedV {
    ParsedV {
        finished: spec_completed(s),
        priority: spec_priority(s),
        finish_date: spec_finish_date(s),
        create_date: spec_create_date(s),
        due_date: spec_due_date(s),
        threshold_date: spec_threshold_date(s),
        subject: spec_subject(s),
        projects: spec_projects(s),
        contexts: spec_contexts(s),
    }
}

/// One logical line of a task file: the exact original text plus the
/// structured fields derived from it.
#[derive(Debug)]
pub struct Task {
    /// 1-based position in the source file at load time.
    pub id: usize,
    /// Structured fields derived from `raw`.
    pub parsed: ParsedTask,
    /// Original unmodified text, the source of truth.
    pub raw: String,
}

/// Mathematical value of a [`Task`].
pub ghost struct TaskV {
    pub id: int,
    pub parsed: ParsedV,
    pub raw: Seq<char>,
}

impl View for Task {
    type V = TaskV;

    open spec fn view(&self) -> TaskV {
        TaskV { id: self.id as int, parsed: self.parsed@, raw: self.raw@ }
    }
}

impl Task {
    /// The structured fields are exactly those derived from `raw`, so
    /// re-deriving them is idempotent.
    pub open spec fn wf(self) -> bool {
        self@.parsed == parse_line(self@.raw)
    }

    /// Create a task from its line text and position.
    pub fn new(id: usize, raw_text: &str) -> (t: Task)
        ensures
            t@.id == id as int,
            t@.raw == raw_text@,
            t@.parsed == parse_line(raw_text@),
            t.wf(),
    {
        let chars = str_chars(raw_text);
        let parsed = parse_line_chars(&chars);
        Task { id, parsed, raw: raw_text.to_owned() }
    }

    /// Turn into a blank task with the same id.
    pub fn clear(&self) -> (t: Task)
        ensures
            t@.id == self@.id,
            t@.raw == Seq::<char>::empty(),
            t@.parsed == parse_line(Seq::<char>::empty()),
            t.wf(),
    {
        let t = Task::new(self.id, "");
        proof {
            reveal_strlit("");
            assert(t@.raw =~= Seq::<char>::empty());
        }
        t
    }

    /// A blank line: one holding no non-whitespace character.  A
    /// whitespace-only line counts as blank for filtering while its raw
    /// text stays verbatim.
    pub fn is_blank(&self) -> (r: bool)
        ensures
            r == crate::spec_line_blank(self@.raw),
    {
        let v = str_chars(self.raw.as_str());
        let n = v.len();
        let mut i: usize = 0;
        while i < n
            invariant
                0 <= i <= n,
                n == v@.len(),
                v@ == self@.raw,
                forall|k: int| 0 <= k < i ==> crate::spec_is_space(#[trigger] v@[k]),
            decreases n - i,
        {
            if !crate::is_space(v[i]) {
                return false;
            }
            i = i + 1;
        }
        true
    }

    /// Condense whitespace runs to single spaces and reparse.
    pub fn normalize_whitespace(&self) -> (t: Task)
        ensures
            t@.id == self@.id,
            t@.raw == crate::text::normalized(self@.raw),
            t@.parsed == parse_line(crate::text::normalized(self@.raw)),
            t.wf(),
    {
        let chars = str_chars(self.raw.as_str());
        let norm = crate::text::normalize_chars(&chars);
        Task::new(self.id, norm.as_str())
    }
}

impl Clone for ParsedTask {
    /// Cloning keeps every structured field.
    fn clone(&self) -> (r: Self)
        ensures
            r@ == self@,
    {
        let r = ParsedTask {
            finished: self.finished,
            priority: self.priority,
            finish_date: self.finish_date,
            create_date: self.create_date,
            due_date: self.due_date,
            threshold_date: self.threshold_date,
            subject: self.subject.clone(),
            projects: self.projects.clone(),
            contexts: self.contexts.clone(),
        };
        proof {
            assert forall|i: int| 0 <= i < self.projects@.len() implies r.projects@[i]
                == self.projects@[i] by {
                assert(cloned::<String>(self.projects@[i], r.projects@[i]));
            }
            assert(r.projects@ =~= self.projects@);
            assert forall|i: int| 0 <= i < self.contexts@.len() implies r.contexts@[i]
                == self.contexts@[i] by {
                assert(cloned::<String>(self.contexts@[i], r.contexts@[i]));
            }
            assert(r.contexts@ =~= self.contexts@);
        }
        r
    }
}

impl Clone for Task {
    /// Cloning keeps the id, the raw text and every structured field.
    fn clone(&self) -> (r: Self)
        ensures
            r@ == self@,
    {
        Task { id: self.id, parsed: self.parsed.clone(), raw: self.raw.clone() }
    }
}

/// A task parsed from its own raw text keeps the same structured fields
/// when that text is parsed again: the fields are a function of the text.
pub proof fn lemma_parse_idempotent(t: Task)
    requires
        t.wf(),
    ensures
        parse_line(t@.raw) == t@.parsed,
{
}

/// A parsed task's priority rank never exceeds [`NO_PRIORITY`]: letters
/// rank 0 through 25, absence ranks 26.
pub proof fn lemma_wf_priority_bound(t: Task)
    requires
        t.wf(),
    ensures
        t@.parsed.priority <= NO_PRIORITY,
{
}

} // verus!
