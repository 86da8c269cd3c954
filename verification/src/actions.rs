//! Mutating actions on the task list: adding tasks and deleting tasks or
//! parts of tasks.

use vstd::prelude::*;
use chrono::Datelike;
use crate::config::AppContext;
use crate::date::spec_is_digit;
use crate::errors::ErrorType;
use crate::task::Task;
use crate::text::chars_string;

verus! {

/// Whether `regex::Regex::new` accepts a pattern; a function of the
/// pattern alone.
pub uninterp spec fn regex_ok(pat: Seq<char>) -> bool;

/// Whether a compiled pattern matches anywhere in a text; a function of
/// pattern and text alone.
pub uninterp spec fn regex_match(pat: Seq<char>, text: Seq<char>) -> bool;

/// The text with every non-overlapping match of the pattern deleted; a
/// function of pattern and text alone.
pub uninterp spec fn regex_remove_all_of(pat: Seq<char>, text: Seq<char>) -> Seq<char>;

/// A compiled pattern together with the pattern text it was built from.
/// Only [`compile_regex`] constructs one, so the two always agree.
#[derive(Debug)]
pub struct CompiledRegex {
    re: regex::Regex,
    /// The pattern this value was compiled from.
    pat: String,
}

#[verifier::external_type_specification]
#[verifier::external_body]
pub struct ExRegex(regex::Regex);

/// Relies on `regex::Regex::new`: whether compiling succeeds depends on
/// the pattern alone.
#[verifier::external_body]
fn compile_regex(pat: &str) -> (r: Option<CompiledRegex>)
    ensures
        (r is Some) == regex_ok(pat@),
        r matches Some(c) ==> c.pat@ == pat@,
{
    match regex::Regex::new(pat) {
        Ok(re) => Some(CompiledRegex { re, pat: pat.to_string() }),
        Err(_) => None,
    }
}

/// Relies on `regex::Regex::is_match`: whether the pattern matches
/// anywhere in the text, a function of pattern and text alone.
#[verifier::external_body]
fn regex_is_match(c: &CompiledRegex, text: &str) -> (r: bool)
    ensures
        r == regex_match(c.pat@, text@),
{
    c.re.is_match(text)
}

/// Relies on `regex::Regex::replace_all` with an empty replacement:
/// every non-overlapping match deleted, a function of pattern and text
/// alone; its documentation promises an unmatched text back unchanged.
#[verifier::external_body]
fn regex_remove_all(c: &CompiledRegex, text: &str) -> (r: String)
    ensures
        r@ == regex_remove_all_of(c.pat@, text@),
        !regex_match(c.pat@, text@) ==> r@ == text@,
{
    c.re.replace_all(text, "").into_owned()
}

/// Relies on chrono's `Utc::now`, `date_naive` and the `Datelike`
/// accessors: the current UTC date as year, month and day.  The result
/// depends on the clock, so only the documented ranges of month and day
/// are promised.
#[verifier::external_body]
fn today_ymd() -> (r: (i32, u8, u8))
    ensures
        1 <= r.1 <= 12,
        1 <= r.2 <= 31,
{
    let now = chrono::Utc::now().date_naive();
    (now.year(), now.month() as u8, now.day() as u8)
}

/// The digit character of `n % 10`.
fn digit_char(n: usize) -> (c: char)
    ensures
        c == ((48 + (n % 10)) as u8) as char,
        spec_is_digit(c),
    {
    let d = ((48 + (n % 10) as u8)) as char;
    proof {
        vstd::utf8::char_u32_cast(d, d as u32);
    }
    d
}

/// A `YYYY-MM-DD ` prefix for the given calendar values, the year taken
/// modulo ten thousand.
fn ymd_prefix(y: i32, m: u8, d: u8) -> (v: Vec<char>)
    requires
        1 <= m <= 12,
        1 <= d <= 31,
    ensures
        v@.len() == 11,
        crate::date::is_date_shaped(v@.subrange(0, 10)),
        v@[10] == ' ',
{
    let y4: usize = if y < 0 {
        0
    } else {
        (y as usize) % 10000
    };
    let mut v: Vec<char> = Vec::new();
    v.push(digit_char(y4 / 1000));
    v.push(digit_char(y4 / 100));
    v.push(digit_char(y4 / 10));
    v.push(digit_char(y4));
    v.push('-');
    v.push(digit_char((m / 10) as usize));
    v.push(digit_char(m as usize));
    v.push('-');
    v.push(digit_char((d / 10) as usize));
    v.push(digit_char(d as usize));
    v.push(' ');
    proof {
        assert(crate::date::is_date_shaped(v@.subrange(0, 10)));
    }
    v
}

/// Create a task from raw input text: count it, prepend the current date
/// when the options ask for it, and parse it into a task under the next
/// line number.  Reading missing input and printing confirmations belong
/// to the surrounding program, not to this core.
pub fn add(task: String, ctx: &mut AppContext) -> (r: Result<Task, ErrorType>)
    requires
        old(ctx).task_ct < usize::MAX,
    ensures
        final(ctx).task_ct == old(ctx).task_ct + 1,
        final(ctx).tasks == old(ctx).tasks,
        final(ctx).opts == old(ctx).opts,
        r matches Ok(t) && t@.id == final(ctx).task_ct && t.wf(),
        !old(ctx).opts.date_on_add ==> (r matches Ok(t) && t@.raw == task@),
        old(ctx).opts.date_on_add ==> (r matches Ok(t) && {
            &&& t@.raw.len() == 11 + task@.len()
            &&& t@.raw.skip(11) == task@
            &&& crate::date::is_date_shaped(t@.raw.take(10))
            &&& t@.raw[10] == ' '
        }),
{
    ctx.task_ct = ctx.task_ct + 1;
    let text: String = if ctx.opts.date_on_add {
        let (y, m, d) = today_ymd();
        let prefix = ymd_prefix(y, m, d);
        let mut s = chars_string(&prefix, 0, prefix.len());
        s.append(task.as_str());
        proof {
            assert(s@.skip(11) =~= task@);
            assert(s@.take(10) =~= prefix@.subrange(0, 10));
        }
        s
    } else {
        task
    };
    let t = Task::new(ctx.task_ct, text.as_str());
    Ok(t)
}

/// The task that term removal leaves behind: the matched parts deleted
/// from the raw text, whitespace normalized, and the result reparsed
/// under the same id.
pub open spec fn is_term_removed(old_t: Task, new_t: Task, pat: Seq<char>) -> bool {
    &&& new_t@.id == old_t@.id
    &&& new_t@.raw == crate::text::normalized(regex_remove_all_of(pat, old_t@.raw))
    &&& new_t.wf()
}

/// Every task on the given line matched the pattern and had it removed;
/// every other task is untouched.
pub open spec fn all_term_removed(pre: Seq<Task>, post: Seq<Task>, item: int, pat: Seq<char>) -> bool {
    &&& forall|i: int|
        0 <= i < pre.len() && (#[trigger] pre[i])@.id == item ==> regex_match(pat, pre[i]@.raw)
            && is_term_removed(pre[i], post[i], pat)
    &&& forall|i: int|
        0 <= i < pre.len() && (#[trigger] pre[i])@.id != item ==> post[i] == pre[i]
}

/// The scan stopped at the first task on the given line that did not
/// match the pattern: lines before it were treated, it and everything
/// after it stand untouched.
pub open spec fn stopped_at_miss(pre: Seq<Task>, post: Seq<Task>, item: int, pat: Seq<char>) -> bool {
    exists|j: int|
        {
            &&& 0 <= j < pre.len()
            &&& (#[trigger] pre[j])@.id == item
            &&& !regex_match(pat, pre[j]@.raw)
            &&& forall|i: int|
                0 <= i < j && (#[trigger] pre[i])@.id == item ==> regex_match(pat, pre[i]@.raw)
                    && is_term_removed(pre[i], post[i], pat)
            &&& forall|i: int|
                0 <= i < j && (#[trigger] pre[i])@.id != item ==> post[i] == pre[i]
            &&& forall|i: int| j <= i < pre.len() ==> #[trigger] post[i] == pre[i]
        }
}

/// What deleting a task by line number with a term does.
pub open spec fn delete_term_post(
    pre: Seq<Task>,
    post: Seq<Task>,
    item: int,
    pat: Seq<char>,
    r: Result<bool, ErrorType>,
) -> bool {
    &&& (!regex_ok(pat) ==> (r is Err && post == pre))
    &&& (regex_ok(pat) ==> (r is Ok))
    &&& (r == Result::<bool, ErrorType>::Ok(true) ==> all_term_removed(pre, post, item, pat))
    &&& (r == Result::<bool, ErrorType>::Ok(false) ==> stopped_at_miss(pre, post, item, pat))
}

/// What deleting a task by line number without a term does: the first
/// task on that line is blanked out under its id; when no task stands on
/// that line, nothing changes and the caller is told so.
pub open spec fn delete_clear_post(
    pre: Seq<Task>,
    post: Seq<Task>,
    item: int,
    r: Result<bool, ErrorType>,
) -> bool {
    &&& (r is Ok)
    &&& (r == Result::<bool, ErrorType>::Ok(true) ==> (exists|j: int|
        {
            &&& 0 <= j < pre.len()
            &&& (#[trigger] pre[j])@.id == item
            &&& post[j]@.id == item
            &&& post[j]@.raw == Seq::<char>::empty()
            &&& post[j].wf()
            &&& forall|i: int| 0 <= i < pre.len() && i != j ==> #[trigger] post[i] == pre[i]
        }))
    &&& (r == Result::<bool, ErrorType>::Ok(false) ==> (post == pre && forall|i: int|
        0 <= i < pre.len() ==> (#[trigger] pre[i])@.id != item))
}

/// Delete a task by line number, or delete a term from it.
///
/// With a term, the term is compiled as a regular expression - an invalid
/// one is the one way this fails - and removed from every task on that
/// line; a line that does not match the term stops the scan and reports
/// that nothing was removed there.  Without a term, the first task on
/// that line is blanked out; asking the user for confirmation belongs to
/// the surrounding program, which asks before calling.
pub fn delete(item: usize, term: &Option<String>, ctx: &mut AppContext) -> (r: Result<
    bool,
    ErrorType,
>)
    ensures
        final(ctx).tasks@.len() == old(ctx).tasks@.len(),
        term is Some ==> delete_term_post(
            old(ctx).tasks@,
            final(ctx).tasks@,
            item as int,
            (term->0)@,
            r,
        ),
        term is None ==> delete_clear_post(old(ctx).tasks@, final(ctx).tasks@, item as int, r),
{
    let n = ctx.tasks.0.len();
    match term {
        Some(tstr) => {
            let c = match compile_regex(tstr.as_str()) {
                Some(c) => c,
                None => {
                    return Err(ErrorType::ParseError);
                },
            };
            let mut i: usize = 0;
            while i < n
                invariant
                    term is Some,
                    term->0 == *tstr,
                    regex_ok(tstr@),
                    0 <= i <= n,
                    n == ctx.tasks@.len(),
                    n == old(ctx).tasks@.len(),
                    c.pat@ == tstr@,
                    forall|k: int|
                        i <= k < n ==> #[trigger] ctx.tasks@[k] == old(ctx).tasks@[k],
                    forall|k: int|
                        0 <= k < i && (#[trigger] old(ctx).tasks@[k])@.id == item as int
                            ==> regex_match(tstr@, old(ctx).tasks@[k]@.raw) && is_term_removed(
                            old(ctx).tasks@[k],
                            ctx.tasks@[k],
                            tstr@,
                        ),
                    forall|k: int|
                        0 <= k < i && (#[trigger] old(ctx).tasks@[k])@.id != item as int
                            ==> ctx.tasks@[k] == old(ctx).tasks@[k],
                decreases n - i,
            {
                if ctx.tasks.0[i].id == item {
                    if !regex_is_match(&c, ctx.tasks.0[i].raw.as_str()) {
                        proof {
                            let j = i as int;
                            assert(old(ctx).tasks@[j]@.id == item as int);
                            assert(!regex_match(tstr@, old(ctx).tasks@[j]@.raw));
                        }
                        return Ok(false);
                    }
                    let newraw = regex_remove_all(&c, ctx.tasks.0[i].raw.as_str());
                    let replaced = Task::new(ctx.tasks.0[i].id, newraw.as_str());
                    let normalized_task = replaced.normalize_whitespace();
                    ctx.tasks.0.set(i, normalized_task);
                }
                i = i + 1;
            }
            Ok(true)
        },
        None => {
            let mut i: usize = 0;
            while i < n
                invariant
                    term is None,
                    0 <= i <= n,
                    n == ctx.tasks@.len(),
                    n == old(ctx).tasks@.len(),
                    ctx.tasks@ == old(ctx).tasks@,
                    forall|k: int|
                        0 <= k < i ==> (#[trigger] old(ctx).tasks@[k])@.id != item as int,
                decreases n - i,
            {
                if ctx.tasks.0[i].id == item {
                    let blank = ctx.tasks.0[i].clear();
                    ctx.tasks.0.set(i, blank);
                    proof {
                        let j = i as int;
                        assert(old(ctx).tasks@[j]@.id == item as int);
                        assert(ctx.tasks@[j]@.raw =~= Seq::<char>::empty());
                    }
                    return Ok(true);
                }
                i = i + 1;
            }
            Ok(false)
        },
    }
}

} // verus!
