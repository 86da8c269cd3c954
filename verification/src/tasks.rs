//! The ordered task collection and its filters.

use vstd::prelude::*;
use crate::task::{Task, views_of};
use crate::filter::passes_filter;
use crate::errors::ErrorType;
use crate::text::str_chars;

verus! {

/// An ordered sequence of tasks; insertion order is file line order.
#[derive(Debug)]
pub struct Tasks(pub Vec<Task>);

impl View for Tasks {
    type V = Seq<Task>;

    open spec fn view(&self) -> Seq<Task> {
        self.0@
    }
}

/// A task's raw text holds at least one non-whitespace character: a
/// whitespace-only line counts as blank for filtering, though its raw
/// text is kept verbatim.
pub open spec fn non_blank(t: Task) -> bool {
    !crate::spec_line_blank(t@.raw)
}

/// [`non_blank`] as a predicate value, for filtering.
pub open spec fn non_blank_pred() -> spec_fn(Task) -> bool {
    |t: Task| non_blank(t)
}

/// A task's raw text passes the term filter.
pub open spec fn task_passes(t: Task, terms: Seq<Seq<char>>) -> bool {
    passes_filter(t@.raw, terms)
}

/// [`task_passes`] as a predicate value, for filtering.
pub open spec fn task_passes_pred(terms: Seq<Seq<char>>) -> spec_fn(Task) -> bool {
    |t: Task| task_passes(t, terms)
}

/// A task's raw text contains every term, compared case-insensitively on
/// ASCII letters.
pub open spec fn task_contains_all(t: Task, terms: Seq<Seq<char>>) -> bool {
    forall|i: int|
        0 <= i < terms.len() ==> crate::filter::contains_pat(t@.raw, #[trigger] terms[i], true)
}

/// [`task_contains_all`] as a predicate value, for filtering.
pub open spec fn task_contains_all_pred(terms: Seq<Seq<char>>) -> spec_fn(Task) -> bool {
    |t: Task| task_contains_all(t, terms)
}

/// The same task under id 0.
pub open spec fn zero_id(t: Task) -> Task {
    Task { id: 0, ..t }
}

/// [`zero_id`] as a map value.
pub open spec fn zero_id_map() -> spec_fn(Task) -> Task {
    |t: Task| zero_id(t)
}

impl Tasks {
    /// Create an empty collection.
    pub fn new() -> (r: Self)
        ensures
            r@ == Seq::<Task>::empty(),
    {
        let r = Tasks(Vec::new());
        proof {
            assert(r@ =~= Seq::<Task>::empty());
        }
        r
    }

    /// The number of tasks held.
    pub fn len(&self) -> (n: usize)
        ensures
            n == self@.len(),
    {
        self.0.len()
    }

    /// The collection holds no task at all.
    pub fn is_empty(&self) -> (r: bool)
        ensures
            r == (self@.len() == 0),
    {
        self.0.len() == 0
    }

    /// Append every task of `other`, in order, keeping `self`'s order first.
    pub fn concat(&mut self, other: Tasks)
        ensures
            final(self)@ == old(self)@ + other@,
    {
        let mut o = other;
        let ghost base = self@;
        let ghost oview = o@;
        let ghost n = oview.len() as int;
        let mut moved: usize = 0;
        proof {
            broadcast use vstd::std_specs::vec::axiom_spec_len;
            assert(o.0.len() == oview.len());
        }
        while o.0.len() > 0
            invariant
                n == oview.len(),
                0 <= n <= usize::MAX,
                0 <= moved <= n,
                moved + o.0@.len() == n,
                o.0@ == oview.subrange(moved as int, n),
                self.0@ == base + oview.subrange(0, moved as int),
            decreases o.0@.len(),
        {
            proof {
                assert(o.0@.len() > 0) by {
                    broadcast use vstd::std_specs::vec::axiom_spec_len;
                }
            }
            let t = o.0.remove(0);
            self.0.push(t);
            moved = moved + 1;
            proof {
                assert(o.0@ =~= oview.subrange(moved as int, n));
                assert(self.0@ =~= base + oview.subrange(0, moved as int));
            }
        }
        proof {
            assert(oview.subrange(0, n) =~= oview);
            assert(final(self)@ =~= old(self)@ + oview);
        }
    }

    /// Blank out every task whose id is `id`: it is replaced by a blank
    /// task with the same id, preserving line numbering.
    pub fn remove_by_id(&mut self, id: usize)
        ensures
            final(self)@.len() == old(self)@.len(),
            forall|i: int|
                0 <= i < old(self)@.len() ==> if old(self)@[i]@.id == id as int {
                    &&& (#[trigger] final(self)@[i])@.id == id as int
                    &&& final(self)@[i]@.raw == Seq::<char>::empty()
                    &&& final(self)@[i].wf()
                } else {
                    final(self)@[i] == old(self)@[i]
                },
    {
        let n = self.0.len();
        let mut i: usize = 0;
        while i < n
            invariant
                n == self.0@.len(),
                n == old(self)@.len(),
                0 <= i <= n,
                forall|k: int|
                    i <= k < n ==> #[trigger] self.0@[k] == old(self)@[k],
                forall|k: int|
                    0 <= k < i ==> if old(self)@[k]@.id == id as int {
                        &&& (#[trigger] self.0@[k])@.id == id as int
                        &&& self.0@[k]@.raw == Seq::<char>::empty()
                        &&& self.0@[k].wf()
                    } else {
                        self.0@[k] == old(self)@[k]
                    },
            decreases n - i,
        {
            if self.0[i].id == id {
                let blank = Task::new(id, "");
                proof {
                    reveal_strlit("");
                    assert(blank@.raw =~= Seq::<char>::empty());
                }
                self.0.set(i, blank);
            }
            i = i + 1;
        }
    }

    /// Give every task id 0; raw text and parsed fields stay untouched.
    /// Done-list tasks are not display-numbered, so they all carry id 0.
    pub fn zero_ids(&mut self)
        ensures
            final(self)@ == old(self)@.map_values(zero_id_map()),
    {
        let ghost orig = self@;
        let mut kept: Vec<Task> = Vec::new();
        let mut moved: usize = 0;
        proof {
            broadcast use vstd::std_specs::vec::axiom_spec_len;
            assert(self.0.len() == orig.len());
            assert(kept@ =~= orig.subrange(0, 0).map_values(zero_id_map()));
        }
        while self.0.len() > 0
            invariant
                orig.len() <= usize::MAX,
                moved + self.0@.len() == orig.len(),
                self.0@ == orig.subrange(moved as int, orig.len() as int),
                kept@ == orig.subrange(0, moved as int).map_values(zero_id_map()),
            decreases self.0@.len(),
        {
            let t = self.0.remove(0);
            let Task { id: _, parsed, raw } = t;
            kept.push(Task { id: 0, parsed, raw });
            moved = moved + 1;
            proof {
                assert(self.0@ =~= orig.subrange(moved as int, orig.len() as int));
                assert(kept@ =~= orig.subrange(0, moved as int).map_values(zero_id_map()));
            }
        }
        proof {
            assert(orig.subrange(0, moved as int) =~= orig);
        }
        self.0 = kept;
    }

    /// Drop every blank task, keeping the order of the rest.
    pub fn remove_blanks(&mut self)
        ensures
            final(self)@ == old(self)@.filter(non_blank_pred()),
    {
        let ghost orig = self@;
        let ghost pred = non_blank_pred();
        let mut kept: Vec<Task> = Vec::new();
        let mut moved: usize = 0;
        proof {
            reveal(Seq::filter);
            assert(orig.subrange(0, 0).filter(pred) =~= Seq::<Task>::empty());
        }
        proof {
            broadcast use vstd::std_specs::vec::axiom_spec_len;
            assert(self.0.len() == orig.len());
        }
        while self.0.len() > 0
            invariant
                orig.len() <= usize::MAX,
                moved + self.0@.len() == orig.len(),
                self.0@ == orig.subrange(moved as int, orig.len() as int),
                kept@ == orig.subrange(0, moved as int).filter(non_blank_pred()),
            decreases self.0@.len(),
        {
            let t = self.0.remove(0);
            proof {
                reveal(Seq::filter);
                assert(orig.subrange(0, moved + 1).drop_last() =~= orig.subrange(0, moved as int));
                assert(orig.subrange(0, moved + 1).last() == orig[moved as int]);
            }
            if !t.is_blank() {
                kept.push(t);
            }
            moved = moved + 1;
            proof {
                assert(self.0@ =~= orig.subrange(moved as int, orig.len() as int));
            }
        }
        proof {
            assert(orig.subrange(0, moved as int) =~= orig);
        }
        self.0 = kept;
    }

    /// Keep only the tasks whose raw text contains every term as a plain
    /// substring, compared case-insensitively.
    pub fn filter_terms(&mut self, terms: &[String])
        ensures
            final(self)@ == old(self)@.filter(task_contains_all_pred(views_of(terms@))),
    {
        let ghost orig = self@;
        let ghost pred = task_contains_all_pred(views_of(terms@));
        let mut kept: Vec<Task> = Vec::new();
        let mut moved: usize = 0;
        proof {
            reveal(Seq::filter);
            assert(orig.subrange(0, 0).filter(pred) =~= Seq::<Task>::empty());
        }
        proof {
            broadcast use vstd::std_specs::vec::axiom_spec_len;
            assert(self.0.len() == orig.len());
        }
        while self.0.len() > 0
            invariant
                orig.len() <= usize::MAX,
                moved + self.0@.len() == orig.len(),
                self.0@ == orig.subrange(moved as int, orig.len() as int),
                kept@ == orig.subrange(0, moved as int).filter(task_contains_all_pred(views_of(terms@))),
            decreases self.0@.len(),
        {
            let t = self.0.remove(0);
            proof {
                reveal(Seq::filter);
                assert(orig.subrange(0, moved + 1).drop_last() =~= orig.subrange(0, moved as int));
                assert(orig.subrange(0, moved + 1).last() == orig[moved as int]);
            }
            if contains_all_terms(&t, terms) {
                kept.push(t);
            }
            moved = moved + 1;
            proof {
                assert(self.0@ =~= orig.subrange(moved as int, orig.len() as int));
            }
        }
        proof {
            assert(orig.subrange(0, moved as int) =~= orig);
        }
        self.0 = kept;
    }

    /// Keep only the tasks whose raw text passes the full term filter:
    /// every term must match (AND), a leading `-` negates a term (NOT),
    /// a sigil-led term is a case-insensitive literal `|`-alternation
    /// (OR), and every other term is one case-insensitive regular
    /// expression.  A term whose body is no valid regular expression is a
    /// malformed filter expression: the error is surfaced and no task is
    /// dropped.
    pub fn filter_terms_regex(&mut self, terms: &[String]) -> (r: Result<(), ErrorType>)
        ensures
            crate::filter::terms_wf(views_of(terms@)) ==> (r is Ok && final(self)@ == old(
                self,
            )@.filter(task_passes_pred(views_of(terms@)))),
            !crate::filter::terms_wf(views_of(terms@)) ==> (r == Result::<(), ErrorType>::Err(
                ErrorType::MalformedFilterExpression,
            ) && final(self)@ == old(self)@),
    {
        if !crate::filter::terms_well_formed(terms) {
            return Err(ErrorType::MalformedFilterExpression);
        }
        let ghost orig = self@;
        let ghost pred = task_passes_pred(views_of(terms@));
        let mut kept: Vec<Task> = Vec::new();
        let mut moved: usize = 0;
        proof {
            reveal(Seq::filter);
            assert(orig.subrange(0, 0).filter(pred) =~= Seq::<Task>::empty());
        }
        proof {
            broadcast use vstd::std_specs::vec::axiom_spec_len;
            assert(self.0.len() == orig.len());
        }
        while self.0.len() > 0
            invariant
                crate::filter::terms_wf(views_of(terms@)),
                orig.len() <= usize::MAX,
                moved + self.0@.len() == orig.len(),
                self.0@ == orig.subrange(moved as int, orig.len() as int),
                kept@ == orig.subrange(0, moved as int).filter(task_passes_pred(views_of(terms@))),
            decreases self.0@.len(),
        {
            let t = self.0.remove(0);
            proof {
                reveal(Seq::filter);
                assert(orig.subrange(0, moved + 1).drop_last() =~= orig.subrange(0, moved as int));
                assert(orig.subrange(0, moved + 1).last() == orig[moved as int]);
            }
            let raw_chars = str_chars(t.raw.as_str());
            if crate::filter::passes_filter_x(&raw_chars, t.raw.as_str(), terms) {
                kept.push(t);
            }
            moved = moved + 1;
            proof {
                assert(self.0@ =~= orig.subrange(moved as int, orig.len() as int));
            }
        }
        proof {
            assert(orig.subrange(0, moved as int) =~= orig);
        }
        self.0 = kept;
        Ok(())
    }
}

/// Parse the lines of a task file into tasks numbered from 1, in order.
/// No line ever fails to parse; unparsable fragments stay plain text.
pub fn tasks_from_lines(lines: &Vec<String>) -> (r: Tasks)
    ensures
        r@.len() == lines@.len(),
        forall|i: int|
            0 <= i < lines@.len() ==> {
                let t = #[trigger] r@[i];
                &&& t@.id == i + 1
                &&& t@.raw == lines@[i]@
                &&& t.wf()
            },
{
    let mut r = Tasks(Vec::new());
    let n = lines.len();
    let mut i: usize = 0;
    while i < n
        invariant
            0 <= i <= n,
            n == lines@.len(),
            r@.len() == i,
            forall|k: int|
                0 <= k < i ==> {
                    let t = #[trigger] r@[k];
                    &&& t@.id == k + 1
                    &&& t@.raw == lines@[k]@
                    &&& t.wf()
                },
        decreases n - i,
    {
        let t = Task::new(i + 1, lines[i].as_str());
        r.0.push(t);
        i = i + 1;
    }
    r
}

/// The subsequence of `s` selected by a boolean mask.
pub open spec fn mask_filter(s: Seq<Task>, keep: Seq<bool>) -> Seq<Task>
    decreases s.len() when s.len() == keep.len()
{
    if s.len() == 0 {
        Seq::empty()
    } else {
        mask_filter(s.drop_last(), keep.drop_last()) + (if keep.last() {
            seq![s.last()]
        } else {
            Seq::empty()
        })
    }
}

impl Tasks {
    /// Keep only the tasks the given test accepts, in order: the result
    /// is the subsequence selected by some mask in which every entry is a
    /// possible answer of the test on the task that stood there.
    pub fn retain<F: Fn(&Task) -> bool>(&mut self, f: F)
        requires
            forall|t: Task| #[trigger] f.requires((&t,)),
        ensures
            exists|keep: Seq<bool>|
                {
                    &&& keep.len() == old(self)@.len()
                    &&& forall|i: int|
                        0 <= i < keep.len() ==> call_ensures(
                            f,
                            (&old(self)@[i],),
                            #[trigger] keep[i],
                        )
                    &&& final(self)@ == mask_filter(old(self)@, keep)
                },
    {
        let ghost orig = self@;
        let mut kept: Vec<Task> = Vec::new();
        let mut moved: usize = 0;
        let ghost mut keep: Seq<bool> = Seq::empty();
        proof {
            broadcast use vstd::std_specs::vec::axiom_spec_len;
            assert(self.0.len() == orig.len());
            assert(kept@ =~= mask_filter(orig.subrange(0, 0), keep));
        }
        while self.0.len() > 0
            invariant
                forall|t: Task| #[trigger] f.requires((&t,)),
                orig.len() <= usize::MAX,
                moved + self.0@.len() == orig.len(),
                self.0@ == orig.subrange(moved as int, orig.len() as int),
                keep.len() == moved,
                forall|i: int|
                    0 <= i < moved ==> call_ensures(f, (&orig[i],), #[trigger] keep[i]),
                kept@ == mask_filter(orig.subrange(0, moved as int), keep),
            decreases self.0@.len(),
        {
            let t = self.0.remove(0);
            let keep_this = f(&t);
            let ghost keep0 = keep;
            proof {
                keep = keep.push(keep_this);
            }
            if keep_this {
                kept.push(t);
            }
            moved = moved + 1;
            proof {
                assert(self.0@ =~= orig.subrange(moved as int, orig.len() as int));
                assert(orig.subrange(0, moved as int).drop_last() =~= orig.subrange(
                    0,
                    moved - 1,
                ));
                assert(keep.drop_last() =~= keep0);
                assert(orig.subrange(0, moved as int).last() == orig[moved - 1]);
                assert(kept@ =~= mask_filter(orig.subrange(0, moved as int), keep));
            }
        }
        proof {
            assert(orig.subrange(0, moved as int) =~= orig);
        }
        self.0 = kept;
    }
}

/// Does the task's raw text contain every term, case-insensitively?
fn contains_all_terms(t: &Task, terms: &[String]) -> (r: bool)
    ensures
        r == task_contains_all(*t, views_of(terms@)),
{
    let ghost tviews = views_of(terms@);
    let raw_chars = str_chars(t.raw.as_str());
    let mut i: usize = 0;
    while i < terms.len()
        invariant
            0 <= i <= terms@.len(),
            tviews == views_of(terms@),
            raw_chars@ == t@.raw,
            forall|k: int|
                0 <= k < i ==> crate::filter::contains_pat(t@.raw, #[trigger] tviews[k], true),
        decreases terms@.len() - i,
    {
        let term_chars = str_chars(terms[i].as_str());
        if !crate::filter::contains_chars(&raw_chars, &term_chars, true) {
            assert(!crate::filter::contains_pat(t@.raw, tviews[i as int], true));
            return false;
        }
        i = i + 1;
    }
    true
}

} // verus!
