//! The list action: filter, sort and render the loaded tasks.

use vstd::prelude::*;
use crate::config::AppContext;
use crate::errors::ErrorType;
use crate::render::{
    OutputOp, OpV, ops_view, format_buffer, spec_render_tasks, dec_digits, dec_chars,
};
use crate::sort::is_sorted_arrangement;
use crate::task::{Task, views_of};
use crate::tasks::{Tasks, non_blank_pred, task_passes_pred, zero_id_map};
use crate::text::chars_string;

verus! {

/// The active tasks that a listing shows, before sorting: blank lines
/// dropped, then the term filter applied when there are terms.
pub open spec fn listed_active(tasks0: Seq<Task>, terms: Seq<Seq<char>>) -> Seq<Task> {
    let a = tasks0.filter(non_blank_pred());
    if terms.len() > 0 {
        a.filter(task_passes_pred(terms))
    } else {
        a
    }
}

/// The done tasks that a full listing appends, before sorting: blank
/// lines dropped, ids zeroed, then the term filter applied.
pub open spec fn listed_done(done0: Seq<Task>, terms: Seq<Seq<char>>) -> Seq<Task> {
    let d = done0.filter(non_blank_pred()).map_values(zero_id_map());
    if terms.len() > 0 {
        d.filter(task_passes_pred(terms))
    } else {
        d
    }
}

/// Everything a listing shows, before sorting.
pub open spec fn listed_all(
    tasks0: Seq<Task>,
    done0: Seq<Task>,
    terms: Seq<Seq<char>>,
    list_all: bool,
) -> Seq<Task> {
    if list_all {
        listed_active(tasks0, terms) + listed_done(done0, terms)
    } else {
        listed_active(tasks0, terms)
    }
}

/// One summary line: `<label><shown> of <total> tasks shown`.
pub open spec fn spec_count_line(label: Seq<char>, shown: int, total: int) -> Seq<char> {
    label + dec_digits(shown) + " of "@ + dec_digits(total) + " tasks shown"@
}

/// The footer operations after the task lines.  A plain listing reports
/// the shown count against the non-blank count; a full listing reports
/// the active list, the done list and their sum against the loaded
/// counts.
pub open spec fn spec_footer(
    list_all: bool,
    pre_t: int,
    post_t: int,
    pre_d: int,
    post_d: int,
    nonblank_t: int,
) -> Seq<OpV> {
    if list_all {
        seq![
            OpV::Text("--"@),
            OpV::Newline,
            OpV::Text(spec_count_line("TODO: "@, post_t, pre_t)),
            OpV::Newline,
            OpV::Text(spec_count_line("DONE: "@, post_d, pre_d)),
            OpV::Newline,
            OpV::Text(spec_count_line("total "@, post_t + post_d, pre_t + pre_d)),
            OpV::Newline,
        ]
    } else {
        seq![
            OpV::Text("--"@),
            OpV::Newline,
            OpV::Text(spec_count_line("TODO: "@, post_t, nonblank_t)),
            OpV::Newline,
        ]
    }
}

/// The decimal digits of `n` as a string.
fn dec_string(n: usize) -> (s: String)
    ensures
        s@ == dec_digits(n as int),
{
    let v = dec_chars(n);
    chars_string(&v, 0, v.len())
}

/// Build one summary line.
fn count_line(label: &str, shown: usize, total: usize) -> (s: String)
    ensures
        s@ == spec_count_line(label@, shown as int, total as int),
{
    let mut s = label.to_owned();
    let shown_s = dec_string(shown);
    s.append(shown_s.as_str());
    s.append(" of ");
    let total_s = dec_string(total);
    s.append(total_s.as_str());
    s.append(" tasks shown");
    s
}

/// List tasks: drop blank lines, filter by the terms, merge the done
/// list into the display under id 0 when `list_all` asks for it, sort by
/// the configured keys, render every line, and close with the summary
/// footer.  A term whose body is no valid regular expression aborts the
/// listing with a malformed-filter error before anything is filtered or
/// written.
pub fn list(terms: &[String], buf: &mut Vec<OutputOp>, ctx: &mut AppContext, list_all: bool) -> (r:
    Result<(), ErrorType>)
    requires
        old(ctx).tasks@.len() + old(ctx).done@.len() <= usize::MAX,
    ensures
        final(ctx).task_ct == old(ctx).task_ct,
        final(ctx).opts == old(ctx).opts,
        final(ctx).styles == old(ctx).styles,
        crate::filter::terms_wf(views_of(terms@)) ==> {
            &&& (r is Ok)
            &&& final(ctx).tasks@.len() == listed_all(
                old(ctx).tasks@,
                old(ctx).done@,
                views_of(terms@),
                list_all,
            ).len()
            &&& (exists|perm: Seq<int>|
                is_sorted_arrangement(
                    listed_all(old(ctx).tasks@, old(ctx).done@, views_of(terms@), list_all),
                    final(ctx).tasks@,
                    perm,
                    old(ctx).opts.sort_by@,
                ))
            &&& ops_view(final(buf)@) == ops_view(old(buf)@) + spec_render_tasks(
                final(ctx).tasks@,
                old(ctx).task_ct as int,
                old(ctx).styles@,
                old(ctx).opts.hide_project % 2 == 0,
                old(ctx).opts.hide_context % 2 == 0,
            ) + spec_footer(
                list_all,
                old(ctx).tasks@.len() as int,
                listed_active(old(ctx).tasks@, views_of(terms@)).len() as int,
                old(ctx).done@.len() as int,
                listed_done(old(ctx).done@, views_of(terms@)).len() as int,
                old(ctx).tasks@.filter(non_blank_pred()).len() as int,
            )
        },
        !crate::filter::terms_wf(views_of(terms@)) ==> {
            &&& r == Result::<(), crate::errors::ErrorType>::Err(
                crate::errors::ErrorType::MalformedFilterExpression,
            )
            &&& final(ctx).tasks@ == old(ctx).tasks@
            &&& final(ctx).done@ == old(ctx).done@
            &&& final(buf)@ == old(buf)@
        },
{
    if !crate::filter::terms_well_formed(terms) {
        return Err(crate::errors::ErrorType::MalformedFilterExpression);
    }
    let ghost tasks0 = ctx.tasks@;
    let ghost done0 = ctx.done@;
    let ghost tviews = views_of(terms@);
    let pre_task_ct = ctx.tasks.len();
    let pre_done_ct = ctx.done.len();
    ctx.tasks.remove_blanks();
    ctx.done.remove_blanks();
    proof {
        tasks0.lemma_filter_len(non_blank_pred());
        done0.lemma_filter_len(non_blank_pred());
    }
    let blank_tasks = pre_task_ct - ctx.tasks.len();
    if list_all {
        ctx.done.zero_ids();
    }
    if terms.len() > 0 {
        match ctx.tasks.filter_terms_regex(terms) {
            Ok(_) => {},
            Err(e) => {
                return Err(e);
            },
        }
        match ctx.done.filter_terms_regex(terms) {
            Ok(_) => {},
            Err(e) => {
                return Err(e);
            },
        }
    }
    let post_task_ct = ctx.tasks.len();
    let post_done_ct = ctx.done.len();
    proof {
        assert(ctx.tasks@ == listed_active(tasks0, tviews));
        if list_all {
            assert(ctx.done@ == listed_done(done0, tviews));
        }
    }
    if list_all {
        let mut moved_done = Tasks::new();
        core::mem::swap(&mut ctx.done, &mut moved_done);
        ctx.tasks.concat(moved_done);
    }
    proof {
        assert(ctx.tasks@ == listed_all(tasks0, done0, tviews, list_all));
    }
    ctx.tasks.sort(ctx.opts.sort_by.as_slice());
    let ghost buf0 = buf@;
    match format_buffer(buf, ctx) {
        Ok(_) => {},
        Err(e) => {
            return Err(e);
        },
    }
    let ghost show_p = ctx.opts.hide_project % 2 == 0;
    let ghost show_c = ctx.opts.hide_context % 2 == 0;
    let ghost rendered = spec_render_tasks(
        ctx.tasks@,
        ctx.task_ct as int,
        ctx.styles@,
        show_p,
        show_c,
    );
    proof {
        assert(ops_view(buf@) == ops_view(buf0) + rendered);
    }
    let dashes = "--".to_owned();
    buf.push(OutputOp::Text(dashes));
    buf.push(OutputOp::Newline);
    if list_all {
        let l1 = count_line("TODO: ", post_task_ct, pre_task_ct);
        buf.push(OutputOp::Text(l1));
        buf.push(OutputOp::Newline);
        let l2 = count_line("DONE: ", post_done_ct, pre_done_ct);
        buf.push(OutputOp::Text(l2));
        buf.push(OutputOp::Newline);
        let l3 = count_line("total ", post_task_ct + post_done_ct, pre_task_ct + pre_done_ct);
        buf.push(OutputOp::Text(l3));
        buf.push(OutputOp::Newline);
        proof {
            assert(ops_view(buf@) =~= ops_view(buf0) + rendered + spec_footer(
                list_all,
                tasks0.len() as int,
                listed_active(tasks0, tviews).len() as int,
                done0.len() as int,
                listed_done(done0, tviews).len() as int,
                tasks0.filter(non_blank_pred()).len() as int,
            ));
        }
    } else {
        let l1 = count_line("TODO: ", post_task_ct, pre_task_ct - blank_tasks);
        buf.push(OutputOp::Text(l1));
        buf.push(OutputOp::Newline);
        proof {
            assert(ops_view(buf@) =~= ops_view(buf0) + rendered + spec_footer(
                list_all,
                tasks0.len() as int,
                listed_active(tasks0, tviews).len() as int,
                done0.len() as int,
                listed_done(done0, tviews).len() as int,
                tasks0.filter(non_blank_pred()).len() as int,
            ));
        }
    }
    Ok(())
}

} // verus!
