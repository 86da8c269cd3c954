//! Multi-key stable sorting of tasks.
//!
//! A [`SortSpec`](SortBy) chain compares two tasks key by key; the first
//! non-equal key decides, reversed when that key asks for it.  The sort is
//! stable: ties keep their prior relative order.  This is proved by
//! sorting (original position, task) pairs under a total order that breaks
//! ties by position.

use vstd::prelude::*;
use core::cmp::Ordering;
use crate::task::{Task, NO_PRIORITY};
use crate::date::Date;
use crate::tasks::Tasks;

verus! {

/// Fields of a [`Task`] to sort by.
#[derive(Clone, Copy, Debug, PartialEq, Eq, Structural)]
pub enum SortByField {
    /// Parsed subject of the task.
    Body,
    /// Completion date of a completed task.
    CompleteDate,
    /// Whether the task is completed.
    Completed,
    /// The first context.
    Context,
    /// Creation date, if present.
    CreateDate,
    /// `due:` tag date, if present.
    DueDate,
    /// Line number.
    Id,
    /// Priority rank (`A` first; absent priority last).
    Priority,
    /// The first project.
    Project,
    /// The unparsed line text.
    Raw,
    /// `t:` tag date, if present.
    ThresholdDate,
}

/// One sort key: a field and a direction.
#[derive(Clone, Copy, Debug, PartialEq, Eq, Structural)]
pub struct SortBy {
    /// Sorting criterion.
    pub field: SortByField,
    /// Whether to reverse this key's order.
    pub reverse: bool,
}

/// Order of two integers.
pub open spec fn ord_int(a: int, b: int) -> Ordering {
    if a < b {
        Ordering::Less
    } else if a == b {
        Ordering::Equal
    } else {
        Ordering::Greater
    }
}

/// Order of two booleans: `false` before `true`.
pub open spec fn ord_bool(a: bool, b: bool) -> Ordering {
    if a == b {
        Ordering::Equal
    } else if !a {
        Ordering::Less
    } else {
        Ordering::Greater
    }
}

/// Order of two dates: by year, then month, then day.
pub open spec fn ord_date(a: Date, b: Date) -> Ordering {
    if a.y != b.y {
        ord_int(a.y as int, b.y as int)
    } else if a.m != b.m {
        ord_int(a.m as int, b.m as int)
    } else {
        ord_int(a.d as int, b.d as int)
    }
}

/// Order of two optional dates: an absent date before any present one.
pub open spec fn ord_opt_date(a: Option<Date>, b: Option<Date>) -> Ordering {
    match (a, b) {
        (Option::None, Option::None) => Ordering::Equal,
        (Option::None, Option::Some(_)) => Ordering::Less,
        (Option::Some(_), Option::None) => Ordering::Greater,
        (Option::Some(x), Option::Some(y)) => ord_date(x, y),
    }
}

/// Lexicographic order of two character sequences by code point.
pub open spec fn ord_chars(a: Seq<char>, b: Seq<char>) -> Ordering
    decreases a.len(),
{
    if a.len() == 0 && b.len() == 0 {
        Ordering::Equal
    } else if a.len() == 0 {
        Ordering::Less
    } else if b.len() == 0 {
        Ordering::Greater
    } else if (a[0] as u32) < (b[0] as u32) {
        Ordering::Less
    } else if (a[0] as u32) > (b[0] as u32) {
        Ordering::Greater
    } else {
        ord_chars(a.drop_first(), b.drop_first())
    }
}

/// Order of two optional character sequences: absent before present.
pub open spec fn ord_opt_chars(a: Option<Seq<char>>, b: Option<Seq<char>>) -> Ordering {
    match (a, b) {
        (Option::None, Option::None) => Ordering::Equal,
        (Option::None, Option::Some(_)) => Ordering::Less,
        (Option::Some(_), Option::None) => Ordering::Greater,
        (Option::Some(x), Option::Some(y)) => ord_chars(x, y),
    }
}

/// The first project of a task, if any.
pub open spec fn first_project(t: Task) -> Option<Seq<char>> {
    if t@.parsed.projects.len() > 0 {
        Option::Some(t@.parsed.projects[0])
    } else {
        Option::None
    }
}

/// The first context of a task, if any.
pub open spec fn first_context(t: Task) -> Option<Seq<char>> {
    if t@.parsed.contexts.len() > 0 {
        Option::Some(t@.parsed.contexts[0])
    } else {
        Option::None
    }
}

/// How two tasks compare on one field.
pub open spec fn field_ord(a: Task, b: Task, f: SortByField) -> Ordering {
    match f {
        SortByField::Body => ord_chars(a@.parsed.subject, b@.parsed.subject),
        SortByField::CompleteDate => ord_opt_date(a@.parsed.finish_date, b@.parsed.finish_date),
        SortByField::Completed => ord_bool(a@.parsed.finished, b@.parsed.finished),
        SortByField::Context => ord_opt_chars(first_context(a), first_context(b)),
        SortByField::CreateDate => ord_opt_date(a@.parsed.create_date, b@.parsed.create_date),
        SortByField::DueDate => ord_opt_date(a@.parsed.due_date, b@.parsed.due_date),
        SortByField::Id => ord_int(a@.id, b@.id),
        SortByField::Priority => ord_int(a@.parsed.priority as int, b@.parsed.priority as int),
        SortByField::Project => ord_opt_chars(first_project(a), first_project(b)),
        SortByField::Raw => ord_chars(a@.raw, b@.raw),
        SortByField::ThresholdDate => ord_opt_date(
            a@.parsed.threshold_date,
            b@.parsed.threshold_date,
        ),
    }
}

/// The opposite of an ordering.
pub open spec fn rev_ord(o: Ordering) -> Ordering {
    match o {
        Ordering::Less => Ordering::Greater,
        Ordering::Equal => Ordering::Equal,
        Ordering::Greater => Ordering::Less,
    }
}

/// How two tasks compare on one key, honoring its direction.
pub open spec fn key_ord(a: Task, b: Task, k: SortBy) -> Ordering {
    if k.reverse {
        rev_ord(field_ord(a, b, k.field))
    } else {
        field_ord(a, b, k.field)
    }
}

/// How two tasks compare under a chain of keys: the first key that does
/// not tie decides.
pub open spec fn chain_ord(a: Task, b: Task, sorts: Seq<SortBy>) -> Ordering
    decreases sorts.len(),
{
    if sorts.len() == 0 {
        Ordering::Equal
    } else if key_ord(a, b, sorts[0]) != Ordering::Equal {
        key_ord(a, b, sorts[0])
    } else {
        chain_ord(a, b, sorts.drop_first())
    }
}

/// Swapping the arguments of the character order flips the result.
proof fn lemma_ord_chars_flip(a: Seq<char>, b: Seq<char>)
    ensures
        ord_chars(b, a) == rev_ord(ord_chars(a, b)),
    decreases a.len(),
{
    if a.len() > 0 && b.len() > 0 && a[0] as u32 == b[0] as u32 {
        lemma_ord_chars_flip(a.drop_first(), b.drop_first());
    }
}

/// Character sequences that compare equal are equal.
proof fn lemma_ord_chars_eq(a: Seq<char>, b: Seq<char>)
    requires
        ord_chars(a, b) == Ordering::Equal,
    ensures
        a == b,
    decreases a.len(),
{
    if a.len() > 0 && b.len() > 0 {
        vstd::utf8::char_u32_cast(a[0], a[0] as u32);
        vstd::utf8::char_u32_cast(b[0], b[0] as u32);
        lemma_ord_chars_eq(a.drop_first(), b.drop_first());
        assert forall|i: int| 0 <= i < a.len() implies a[i] == b[i] by {
            if i > 0 {
                assert(a[i] == a.drop_first()[i - 1]);
                assert(b[i] == b.drop_first()[i - 1]);
            }
        }
        assert(a =~= b);
    } else {
        assert(a =~= b);
    }
}

/// The character order is transitive in its strict part.
proof fn lemma_ord_chars_less_trans(a: Seq<char>, b: Seq<char>, c: Seq<char>)
    requires
        ord_chars(a, b) == Ordering::Less,
        ord_chars(b, c) == Ordering::Less,
    ensures
        ord_chars(a, c) == Ordering::Less,
    decreases a.len(),
{
    if a.len() > 0 && b.len() > 0 && c.len() > 0 && a[0] as u32 == b[0] as u32 && b[0] as u32
        == c[0] as u32 {
        lemma_ord_chars_less_trans(a.drop_first(), b.drop_first(), c.drop_first());
    }
}

/// The three coherence facts for one field order: strict-then-loose and
/// loose-then-strict compositions stay strict; ties compose to ties.
proof fn lemma_field_trans(a: Task, b: Task, c: Task, f: SortByField)
    ensures
        field_ord(a, b, f) == Ordering::Less && field_ord(b, c, f) != Ordering::Greater
            ==> field_ord(a, c, f) == Ordering::Less,
        field_ord(a, b, f) != Ordering::Greater && field_ord(b, c, f) == Ordering::Less
            ==> field_ord(a, c, f) == Ordering::Less,
        field_ord(a, b, f) == Ordering::Equal && field_ord(b, c, f) == Ordering::Equal
            ==> field_ord(a, c, f) == Ordering::Equal,
{
    match f {
        SortByField::Body => {
            lemma_ord_chars_coherence(a@.parsed.subject, b@.parsed.subject, c@.parsed.subject);
        },
        SortByField::Raw => {
            lemma_ord_chars_coherence(a@.raw, b@.raw, c@.raw);
        },
        SortByField::Context => {
            lemma_ord_opt_chars_coherence(first_context(a), first_context(b), first_context(c));
        },
        SortByField::Project => {
            lemma_ord_opt_chars_coherence(first_project(a), first_project(b), first_project(c));
        },
        _ => {},
    }
}

/// Coherence facts for the lexicographic character order.
proof fn lemma_ord_chars_coherence(a: Seq<char>, b: Seq<char>, c: Seq<char>)
    ensures
        ord_chars(a, b) == Ordering::Less && ord_chars(b, c) != Ordering::Greater ==> ord_chars(
            a,
            c,
        ) == Ordering::Less,
        ord_chars(a, b) != Ordering::Greater && ord_chars(b, c) == Ordering::Less ==> ord_chars(
            a,
            c,
        ) == Ordering::Less,
        ord_chars(a, b) == Ordering::Equal && ord_chars(b, c) == Ordering::Equal ==> ord_chars(
            a,
            c,
        ) == Ordering::Equal,
{
    if ord_chars(a, b) == Ordering::Equal {
        lemma_ord_chars_eq(a, b);
    }
    if ord_chars(b, c) == Ordering::Equal {
        lemma_ord_chars_eq(b, c);
    }
    if ord_chars(a, b) == Ordering::Less && ord_chars(b, c) == Ordering::Less {
        lemma_ord_chars_less_trans(a, b, c);
    }
}

/// Coherence facts for optional character sequences.
proof fn lemma_ord_opt_chars_coherence(
    a: Option<Seq<char>>,
    b: Option<Seq<char>>,
    c: Option<Seq<char>>,
)
    ensures
        ord_opt_chars(a, b) == Ordering::Less && ord_opt_chars(b, c) != Ordering::Greater
            ==> ord_opt_chars(a, c) == Ordering::Less,
        ord_opt_chars(a, b) != Ordering::Greater && ord_opt_chars(b, c) == Ordering::Less
            ==> ord_opt_chars(a, c) == Ordering::Less,
        ord_opt_chars(a, b) == Ordering::Equal && ord_opt_chars(b, c) == Ordering::Equal
            ==> ord_opt_chars(a, c) == Ordering::Equal,
{
    if a is Some && b is Some && c is Some {
        lemma_ord_chars_coherence(a->0, b->0, c->0);
    }
}

/// Swapping the arguments of a field order flips the result.
proof fn lemma_field_flip(a: Task, b: Task, f: SortByField)
    ensures
        field_ord(b, a, f) == rev_ord(field_ord(a, b, f)),
{
    match f {
        SortByField::Body => {
            lemma_ord_chars_flip(a@.parsed.subject, b@.parsed.subject);
        },
        SortByField::Raw => {
            lemma_ord_chars_flip(a@.raw, b@.raw);
        },
        SortByField::Context => {
            if first_context(a) is Some && first_context(b) is Some {
                lemma_ord_chars_flip(first_context(a)->0, first_context(b)->0);
            }
        },
        SortByField::Project => {
            if first_project(a) is Some && first_project(b) is Some {
                lemma_ord_chars_flip(first_project(a)->0, first_project(b)->0);
            }
        },
        _ => {},
    }
}

/// Swapping the arguments of the whole chain flips the result.
pub proof fn lemma_chain_flip(a: Task, b: Task, sorts: Seq<SortBy>)
    ensures
        chain_ord(b, a, sorts) == rev_ord(chain_ord(a, b, sorts)),
    decreases sorts.len(),
{
    if sorts.len() > 0 {
        lemma_field_flip(a, b, sorts[0].field);
        lemma_chain_flip(a, b, sorts.drop_first());
    }
}

/// Coherence facts for the whole chain: they make the chain order a total
/// preorder.
pub proof fn lemma_chain_trans(a: Task, b: Task, c: Task, sorts: Seq<SortBy>)
    ensures
        chain_ord(a, b, sorts) == Ordering::Less && chain_ord(b, c, sorts) != Ordering::Greater
            ==> chain_ord(a, c, sorts) == Ordering::Less,
        chain_ord(a, b, sorts) != Ordering::Greater && chain_ord(b, c, sorts) == Ordering::Less
            ==> chain_ord(a, c, sorts) == Ordering::Less,
        chain_ord(a, b, sorts) == Ordering::Equal && chain_ord(b, c, sorts) == Ordering::Equal
            ==> chain_ord(a, c, sorts) == Ordering::Equal,
    decreases sorts.len(),
{
    if sorts.len() > 0 {
        let f = sorts[0].field;
        lemma_field_trans(a, b, c, f);
        lemma_field_trans(c, b, a, f);
        lemma_field_flip(a, b, f);
        lemma_field_flip(b, c, f);
        lemma_field_flip(a, c, f);
        lemma_chain_trans(a, b, c, sorts.drop_first());
    }
}

/// The character order is unchanged by dropping a common prefix.
proof fn lemma_ord_chars_skip(a: Seq<char>, b: Seq<char>, i: int)
    requires
        0 <= i <= a.len(),
        i <= b.len(),
        forall|j: int| 0 <= j < i ==> a[j] == b[j],
    ensures
        ord_chars(a, b) == ord_chars(a.skip(i), b.skip(i)),
    decreases i,
{
    if i > 0 {
        assert(a.skip(0) =~= a);
        assert(b.skip(0) =~= b);
        let a1 = a.drop_first();
        let b1 = b.drop_first();
        assert(forall|j: int| 0 <= j < i - 1 ==> a1[j] == b1[j]);
        lemma_ord_chars_skip(a1, b1, i - 1);
        assert(a1.skip(i - 1) =~= a.skip(i));
        assert(b1.skip(i - 1) =~= b.skip(i));
    } else {
        assert(a.skip(0) =~= a);
        assert(b.skip(0) =~= b);
    }
}

/// Compare two character vectors lexicographically by code point.
fn cmp_chars_x(a: &Vec<char>, b: &Vec<char>) -> (r: Ordering)
    ensures
        r == ord_chars(a@, b@),
{
    let n = if a.len() < b.len() {
        a.len()
    } else {
        b.len()
    };
    let mut i: usize = 0;
    while i < n && a[i] == b[i]
        invariant
            n <= a@.len(),
            n <= b@.len(),
            n == if a@.len() < b@.len() {
                a@.len() as int
            } else {
                b@.len() as int
            },
            0 <= i <= n,
            forall|j: int| 0 <= j < i ==> a@[j] == b@[j],
        decreases n - i,
    {
        i = i + 1;
    }
    proof {
        lemma_ord_chars_skip(a@, b@, i as int);
    }
    if i < a.len() && i < b.len() {
        // the scan stopped on a difference
        if (a[i] as u32) < (b[i] as u32) {
            Ordering::Less
        } else {
            proof {
                vstd::utf8::char_u32_cast(a@[i as int], a@[i as int] as u32);
                vstd::utf8::char_u32_cast(b@[i as int], b@[i as int] as u32);
            }
            Ordering::Greater
        }
    } else if i < b.len() {
        // `a` ran out first and is a strict prefix
        Ordering::Less
    } else if i < a.len() {
        Ordering::Greater
    } else {
        Ordering::Equal
    }
}

/// Compare two strings lexicographically by code point.
fn cmp_str_x(a: &String, b: &String) -> (r: Ordering)
    ensures
        r == ord_chars(a@, b@),
{
    let av = crate::text::str_chars(a.as_str());
    let bv = crate::text::str_chars(b.as_str());
    cmp_chars_x(&av, &bv)
}

/// Compare two optional dates: absent first.
fn cmp_opt_date_x(a: Option<Date>, b: Option<Date>) -> (r: Ordering)
    ensures
        r == ord_opt_date(a, b),
{
    match (a, b) {
        (Option::None, Option::None) => Ordering::Equal,
        (Option::None, Option::Some(_)) => Ordering::Less,
        (Option::Some(_), Option::None) => Ordering::Greater,
        (Option::Some(x), Option::Some(y)) => {
            if x.y != y.y {
                if x.y < y.y {
                    Ordering::Less
                } else {
                    Ordering::Greater
                }
            } else if x.m != y.m {
                if x.m < y.m {
                    Ordering::Less
                } else {
                    Ordering::Greater
                }
            } else {
                if x.d < y.d {
                    Ordering::Less
                } else if x.d == y.d {
                    Ordering::Equal
                } else {
                    Ordering::Greater
                }
            }
        },
    }
}

/// Compare the first entries of two string lists: an empty list first.
fn cmp_first_x(a: &Vec<String>, b: &Vec<String>) -> (r: Ordering)
    ensures
        r == ord_opt_chars(
            if crate::task::views_of(a@).len() > 0 {
                Option::Some(crate::task::views_of(a@)[0])
            } else {
                Option::None
            },
            if crate::task::views_of(b@).len() > 0 {
                Option::Some(crate::task::views_of(b@)[0])
            } else {
                Option::None
            },
        ),
{
    if a.len() == 0 && b.len() == 0 {
        Ordering::Equal
    } else if a.len() == 0 {
        Ordering::Less
    } else if b.len() == 0 {
        Ordering::Greater
    } else {
        cmp_str_x(&a[0], &b[0])
    }
}

/// Compare two tasks on one field.
fn cmp_field_x(a: &Task, b: &Task, f: SortByField) -> (r: Ordering)
    ensures
        r == field_ord(*a, *b, f),
{
    match f {
        SortByField::Body => cmp_str_x(&a.parsed.subject, &b.parsed.subject),
        SortByField::CompleteDate => cmp_opt_date_x(a.parsed.finish_date, b.parsed.finish_date),
        SortByField::Completed => {
            if a.parsed.finished == b.parsed.finished {
                Ordering::Equal
            } else if !a.parsed.finished {
                Ordering::Less
            } else {
                Ordering::Greater
            }
        },
        SortByField::Context => cmp_first_x(&a.parsed.contexts, &b.parsed.contexts),
        SortByField::CreateDate => cmp_opt_date_x(a.parsed.create_date, b.parsed.create_date),
        SortByField::DueDate => cmp_opt_date_x(a.parsed.due_date, b.parsed.due_date),
        SortByField::Id => {
            if a.id < b.id {
                Ordering::Less
            } else if a.id == b.id {
                Ordering::Equal
            } else {
                Ordering::Greater
            }
        },
        SortByField::Priority => {
            if a.parsed.priority < b.parsed.priority {
                Ordering::Less
            } else if a.parsed.priority == b.parsed.priority {
                Ordering::Equal
            } else {
                Ordering::Greater
            }
        },
        SortByField::Project => cmp_first_x(&a.parsed.projects, &b.parsed.projects),
        SortByField::Raw => cmp_str_x(&a.raw, &b.raw),
        SortByField::ThresholdDate => cmp_opt_date_x(
            a.parsed.threshold_date,
            b.parsed.threshold_date,
        ),
    }
}

/// Compare two tasks under a chain of keys.
pub fn chain_cmp_x(a: &Task, b: &Task, sorts: &[SortBy]) -> (r: Ordering)
    ensures
        r == chain_ord(*a, *b, sorts@),
{
    let mut i: usize = 0;
    proof {
        assert(sorts@.skip(0) =~= sorts@);
    }
    while i < sorts.len()
        invariant
            0 <= i <= sorts@.len(),
            chain_ord(*a, *b, sorts@) == chain_ord(*a, *b, sorts@.skip(i as int)),
        decreases sorts@.len() - i,
    {
        proof {
            assert(sorts@.skip(i as int)[0] == sorts@[i as int]);
            assert(sorts@.skip(i as int).drop_first() =~= sorts@.skip(i + 1));
        }
        let k = sorts[i];
        let o = cmp_field_x(a, b, k.field);
        let o = if k.reverse {
            match o {
                Ordering::Less => Ordering::Greater,
                Ordering::Equal => Ordering::Equal,
                Ordering::Greater => Ordering::Less,
            }
        } else {
            o
        };
        if !matches!(o, Ordering::Equal) {
            assert(o == key_ord(*a, *b, sorts@[i as int]));
            return o;
        }
        i = i + 1;
    }
    proof {
        assert(sorts@.skip(i as int) =~= Seq::<SortBy>::empty());
    }
    Ordering::Equal
}

/// A pair carries a task and its original position; pairs order by the
/// key chain first and break ties by position, which makes the order
/// total and the sort stable.
pub open spec fn pair_le(p: (usize, Task), q: (usize, Task), sorts: Seq<SortBy>) -> bool {
    ||| chain_ord(p.1, q.1, sorts) == Ordering::Less
    ||| (chain_ord(p.1, q.1, sorts) == Ordering::Equal && p.0 <= q.0)
}

/// Any two pairs are comparable.
proof fn lemma_pair_le_total(p: (usize, Task), q: (usize, Task), sorts: Seq<SortBy>)
    ensures
        pair_le(p, q, sorts) || pair_le(q, p, sorts),
{
    lemma_chain_flip(p.1, q.1, sorts);
}

/// The pair order is transitive.
proof fn lemma_pair_le_trans(p: (usize, Task), q: (usize, Task), r: (usize, Task), sorts: Seq<SortBy>)
    requires
        pair_le(p, q, sorts),
        pair_le(q, r, sorts),
    ensures
        pair_le(p, r, sorts),
{
    lemma_chain_trans(p.1, q.1, r.1, sorts);
}

/// Does `p` sort at or before `q`?
fn pair_le_x(p: &(usize, Task), q: &(usize, Task), sorts: &[SortBy]) -> (r: bool)
    ensures
        r == pair_le(*p, *q, sorts@),
{
    let o = chain_cmp_x(&p.1, &q.1, sorts);
    match o {
        Ordering::Less => true,
        Ordering::Equal => p.0 <= q.0,
        Ordering::Greater => false,
    }
}

/// Every adjacent-or-distant pair of the sequence is ordered.
pub open spec fn pairs_sorted(s: Seq<(usize, Task)>, sorts: Seq<SortBy>) -> bool {
    forall|k: int, l: int| 0 <= k < l < s.len() ==> pair_le(#[trigger] s[k], #[trigger] s[l], sorts)
}

/// The pair at position `k` carries the task that sat at its recorded
/// original position.
pub open spec fn pair_from(p: (usize, Task), orig: Seq<Task>) -> bool {
    p.0 < orig.len() && p.1 == orig[p.0 as int]
}

/// All pairs carry their provenance and no two carry the same position.
pub open spec fn pairs_wf(s: Seq<(usize, Task)>, orig: Seq<Task>) -> bool {
    &&& forall|k: int| 0 <= k < s.len() ==> pair_from(#[trigger] s[k], orig)
    &&& forall|k: int, l: int| 0 <= k < l < s.len() ==> (#[trigger] s[k]).0 != (#[trigger] s[l]).0
}

/// Insertion sort on position-tagged pairs.
#[verifier::rlimit(100)]
fn sort_pairs(v: &mut Vec<(usize, Task)>, sorts: &[SortBy], Ghost(orig): Ghost<Seq<Task>>)
    requires
        pairs_wf(old(v)@, orig),
    ensures
        final(v)@.len() == old(v)@.len(),
        pairs_wf(final(v)@, orig),
        pairs_sorted(final(v)@, sorts@),
{
    let n = v.len();
    if n <= 1 {
        return;
    }
    let mut i: usize = 1;
    while i < n
        invariant
            2 <= n == v@.len() <= usize::MAX,
            1 <= i <= n,
            pairs_wf(v@, orig),
            pairs_sorted(v@.subrange(0, i as int), sorts@),
        decreases n - i,
    {
        let ghost prev = v@;
        let x = v.remove(i);
        let ghost w = v@;
        proof {
            assert forall|k: int| 0 <= k < w.len() implies pair_from(#[trigger] w[k], orig) by {
                if k < i {
                    assert(w[k] == prev[k]);
                } else {
                    assert(w[k] == prev[k + 1]);
                }
            }
            assert forall|k: int, l: int| 0 <= k < l < w.len() implies (#[trigger] w[k]).0 != (
            #[trigger] w[l]).0 by {
                let k0: int = if k < i {
                    k
                } else {
                    k + 1
                };
                let l0: int = if l < i {
                    l
                } else {
                    l + 1
                };
                assert(w[k] == prev[k0]);
                assert(w[l] == prev[l0]);
            }
            assert forall|k: int| 0 <= k < w.len() implies (#[trigger] w[k]).0 != x.0 by {
                let k0: int = if k < i {
                    k
                } else {
                    k + 1
                };
                assert(w[k] == prev[k0]);
                assert(x == prev[i as int]);
            }
            assert(w.subrange(0, i as int) =~= prev.subrange(0, i as int));
        }
        let mut p: usize = i;
        while p > 0 && !pair_le_x(&v[p - 1], &x, sorts)
            invariant
                0 <= p <= i < n,
                i <= w.len(),
                w == v@,
                forall|k: int| p <= k < i ==> pair_le(x, #[trigger] w[k], sorts@),
            decreases p,
        {
            proof {
                lemma_pair_le_total(w[p - 1], x, sorts@);
            }
            p = p - 1;
        }
        proof {
            assert(p > 0 ==> pair_le(w[p - 1], x, sorts@));
        }
        v.insert(p, x);
        proof {
            let u = v@;
            assert(u == w.insert(p as int, x));
            assert forall|k: int| 0 <= k < u.len() implies pair_from(#[trigger] u[k], orig) by {
                if k < p {
                    assert(u[k] == w[k]);
                } else if k == p {
                    assert(u[k] == x);
                    assert(pair_from(prev[i as int], orig));
                } else {
                    assert(u[k] == w[k - 1]);
                }
            }
            assert forall|k: int, l: int| 0 <= k < l < u.len() implies (#[trigger] u[k]).0 != (
            #[trigger] u[l]).0 by {
                if k < p {
                    assert(u[k] == w[k]);
                } else if k == p {
                    assert(u[k] == x);
                } else {
                    assert(u[k] == w[k - 1]);
                }
                if l < p {
                    assert(u[l] == w[l]);
                } else if l == p {
                    assert(u[l] == x);
                } else {
                    assert(u[l] == w[l - 1]);
                }
            }
            assert forall|k: int, l: int| 0 <= k < l < i + 1 implies pair_le(
                #[trigger] u.subrange(0, i + 1)[k],
                #[trigger] u.subrange(0, i + 1)[l],
                sorts@,
            ) by {
                let sortedw = w.subrange(0, i as int);
                assert(pairs_sorted(sortedw, sorts@));
                if l < p {
                    assert(u[k] == w[k] && u[l] == w[l]);
                    assert(pair_le(sortedw[k], sortedw[l], sorts@));
                } else if l == p {
                    // u[l] is x; everything before position p is at most x
                    assert(u[k] == w[k]);
                    if k < p - 1 {
                        assert(pair_le(sortedw[k], sortedw[p - 1], sorts@));
                        lemma_pair_le_trans(w[k], w[p - 1], x, sorts@);
                    }
                } else {
                    assert(u[l] == w[l - 1]);
                    assert(pair_le(x, w[l - 1], sorts@));
                    if k < p {
                        assert(u[k] == w[k]);
                        if k < p - 1 {
                            assert(pair_le(sortedw[k], sortedw[p - 1], sorts@));
                            lemma_pair_le_trans(w[k], w[p - 1], x, sorts@);
                        }
                        lemma_pair_le_trans(w[k], x, w[l - 1], sorts@);
                    } else if k == p {
                        assert(u[k] == x);
                    } else {
                        assert(u[k] == w[k - 1]);
                        assert(pair_le(sortedw[k - 1], sortedw[l - 1], sorts@));
                    }
                }
            }
            assert(pairs_sorted(u.subrange(0, i + 1), sorts@));
        }
        i = i + 1;
    }
    proof {
        assert(v@.subrange(0, n as int) =~= v@);
    }
}

/// `post` is `pre` rearranged by the injective position map `perm`,
/// ordered by the key chain, with ties left in their original order.
pub open spec fn is_sorted_arrangement(
    pre: Seq<Task>,
    post: Seq<Task>,
    perm: Seq<int>,
    sorts: Seq<SortBy>,
) -> bool {
    &&& post.len() == pre.len()
    &&& perm.len() == pre.len()
    &&& forall|k: int| 0 <= k < perm.len() ==> 0 <= #[trigger] perm[k] < pre.len()
    &&& forall|k: int| 0 <= k < perm.len() ==> post[k] == pre[#[trigger] perm[k]]
    &&& forall|k: int, l: int| 0 <= k < l < perm.len() ==> #[trigger] perm[k] != #[trigger] perm[l]
    &&& forall|k: int, l: int|
        0 <= k < l < post.len() ==> chain_ord(#[trigger] post[k], #[trigger] post[l], sorts)
            == Ordering::Less || (chain_ord(post[k], post[l], sorts) == Ordering::Equal && perm[k]
            < perm[l])
}

impl Tasks {
    /// Stable multi-key sort: the first key of `sorts` that does not tie
    /// decides, reversed where asked; tasks whose keys all tie keep their
    /// original relative order.
    pub fn sort(&mut self, sorts: &[SortBy])
        ensures
            final(self)@.len() == old(self)@.len(),
            exists|perm: Seq<int>|
                is_sorted_arrangement(old(self)@, final(self)@, perm, sorts@),
    {
        let ghost orig = self@;
        let n = self.0.len();
        let mut pairs: Vec<(usize, Task)> = Vec::new();
        let mut idx: usize = 0;
        while self.0.len() > 0
            invariant
                orig.len() == n <= usize::MAX,
                idx + self.0@.len() == n,
                self.0@ == orig.subrange(idx as int, n as int),
                pairs@.len() == idx,
                forall|k: int| 0 <= k < idx ==> #[trigger] pairs@[k] == (k as usize, orig[k]),
            decreases self.0@.len(),
        {
            let t = self.0.remove(0);
            pairs.push((idx, t));
            idx = idx + 1;
            proof {
                assert(self.0@ =~= orig.subrange(idx as int, n as int));
            }
        }
        proof {
            assert(pairs_wf(pairs@, orig));
        }
        sort_pairs(&mut pairs, sorts, Ghost(orig));
        let ghost arranged = pairs@;
        let mut out: usize = 0;
        while pairs.len() > 0
            invariant
                arranged.len() == n <= usize::MAX,
                out + pairs@.len() == n,
                pairs@ == arranged.subrange(out as int, n as int),
                self.0@.len() == out,
                forall|k: int| 0 <= k < out ==> #[trigger] self.0@[k] == arranged[k].1,
            decreases pairs@.len(),
        {
            let pr = pairs.remove(0);
            self.0.push(pr.1);
            out = out + 1;
            proof {
                assert(pairs@ =~= arranged.subrange(out as int, n as int));
            }
        }
        proof {
            let perm = Seq::new(n as nat, |k: int| arranged[k].0 as int);
            assert(is_sorted_arrangement(orig, self@, perm, sorts@)) by {
                assert(pairs_wf(arranged, orig));
                assert(pairs_sorted(arranged, sorts@));
                assert forall|k: int, l: int| 0 <= k < l < self@.len() implies chain_ord(
                    #[trigger] self@[k],
                    #[trigger] self@[l],
                    sorts@,
                ) == Ordering::Less || (chain_ord(self@[k], self@[l], sorts@) == Ordering::Equal
                    && perm[k] < perm[l]) by {
                    assert(pair_le(arranged[k], arranged[l], sorts@));
                    assert(arranged[k].0 != arranged[l].0);
                }
            }
        }
    }
}

/// Sort stability: when two tasks of the sorted output have keys that
/// compare equal under the sort specification, the one that came earlier
/// in the input also stands earlier in the output.
pub proof fn lemma_sort_stable(
    pre: Seq<Task>,
    post: Seq<Task>,
    perm: Seq<int>,
    sorts: Seq<SortBy>,
    k: int,
    l: int,
)
    requires
        is_sorted_arrangement(pre, post, perm, sorts),
        0 <= k < l < post.len(),
        chain_ord(post[k], post[l], sorts) == Ordering::Equal,
    ensures
        perm[k] < perm[l],
{
}

/// Absent priority orders last: after sorting by ascending priority,
/// whatever follows a task without a priority also has no priority, so
/// every lettered-priority task stands before every no-priority task.
/// The priority bound holds of every parsed task.
pub proof fn lemma_priority_absent_last(
    pre: Seq<Task>,
    post: Seq<Task>,
    perm: Seq<int>,
    k: int,
    l: int,
)
    requires
        is_sorted_arrangement(
            pre,
            post,
            perm,
            seq![SortBy { field: SortByField::Priority, reverse: false }],
        ),
        0 <= k < l < post.len(),
        post[k]@.parsed.priority == NO_PRIORITY,
        post[l]@.parsed.priority <= NO_PRIORITY,
    ensures
        post[l]@.parsed.priority == NO_PRIORITY,
{
    let sorts = seq![SortBy { field: SortByField::Priority, reverse: false }];
    assert(chain_ord(post[k], post[l], sorts) != Ordering::Greater);
    assert(sorts.drop_first() =~= Seq::<SortBy>::empty());
}

} // verus!
