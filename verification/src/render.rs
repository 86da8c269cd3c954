//! The renderer: tasks to a sequence of styled output operations.
//!
//! The renderer never touches a terminal.  It walks the final (sorted,
//! filtered) tasks, re-tokenizes each task's raw text to keep the exact
//! original token content, and emits an operation list — text, style
//! switches, resets and line breaks — that the program shell plays onto
//! its output; the concrete terminal protocol stays outside the core.

use vstd::prelude::*;
use crate::config::AppContext;
use crate::errors::ErrorType;
use crate::style::{ColorSpec, resolve_style, get_colors_from_style};
use crate::task::{Task, NO_PRIORITY};
use crate::tasks::Tasks;
use crate::text::{
    token_spans, tokens_of, tokenize, str_chars, chars_string, spans_view, push_char,
    lemma_spans_from_wf,
};
use crate::util::{get_pri_name, spec_pri_name};

verus! {

/// One output operation.
#[derive(Debug)]
pub enum OutputOp {
    /// Write this text.
    Text(String),
    /// Switch to this attribute set.
    SetColor(ColorSpec),
    /// Reset to plain style.
    ResetStyle,
    /// End the line.
    Newline,
}

/// Mathematical value of an [`OutputOp`].
pub ghost enum OpV {
    Text(Seq<char>),
    SetColor(ColorSpec),
    ResetStyle,
    Newline,
}

impl View for OutputOp {
    type V = OpV;

    open spec fn view(&self) -> OpV {
        match self {
            OutputOp::Text(s) => OpV::Text(s@),
            OutputOp::SetColor(c) => OpV::SetColor(*c),
            OutputOp::ResetStyle => OpV::ResetStyle,
            OutputOp::Newline => OpV::Newline,
        }
    }
}

/// Views of an operation list.
pub open spec fn ops_view(ops: Seq<OutputOp>) -> Seq<OpV> {
    ops.map_values(|o: OutputOp| o@)
}

/// The decimal digits of `n`, most significant first.
pub open spec fn dec_digits(n: int) -> Seq<char>
    decreases n,
{
    if n < 10 {
        seq![((48 + if n >= 0 { n } else { 0 }) as u8) as char]
    } else {
        dec_digits(n / 10) + seq![((48 + n % 10) as u8) as char]
    }
}

/// The decimal digits of `n` as characters.
pub fn dec_chars(n: usize) -> (v: Vec<char>)
    ensures
        v@ == dec_digits(n as int),
        v@.len() >= 1,
    decreases n,
{
    if n < 10 {
        let c = ((48 + n as u8)) as char;
        let mut v: Vec<char> = Vec::new();
        v.push(c);
        proof {
            assert(v@ =~= dec_digits(n as int));
        }
        v
    } else {
        let mut v = dec_chars(n / 10);
        let c = ((48 + (n % 10) as u8)) as char;
        v.push(c);
        proof {
            assert(v@ =~= dec_digits(n as int));
        }
        v
    }
}

/// `n` zero characters.
pub open spec fn zeros(n: int) -> Seq<char> {
    Seq::new(if n >= 0 {
        n as nat
    } else {
        0
    }, |i: int| '0')
}

/// The id of a task, zero-padded to the digit count of the total task
/// count, followed by one space.
pub open spec fn spec_padded_id(id: int, total: int) -> Seq<char> {
    let digits = dec_digits(id);
    let width = dec_digits(total).len() as int;
    zeros(width - digits.len()) + digits + seq![' ']
}

/// Render a task id zero-padded to the width of the total count,
/// followed by one space.
pub fn padded_id(id: usize, total: usize) -> (s: String)
    ensures
        s@ == spec_padded_id(id as int, total as int),
{
    let digits = dec_chars(id);
    let width_chars = dec_chars(total);
    let width = width_chars.len();
    let mut v: Vec<char> = Vec::new();
    let mut k: usize = 0;
    let pad = if width > digits.len() {
        width - digits.len()
    } else {
        0
    };
    while k < pad
        invariant
            0 <= k <= pad,
            v@ =~= zeros(k as int),
        decreases pad - k,
    {
        v.push('0');
        k = k + 1;
        proof {
            assert(v@ =~= zeros(k as int));
        }
    }
    let mut i: usize = 0;
    while i < digits.len()
        invariant
            0 <= i <= digits@.len(),
            v@ =~= zeros(pad as int) + digits@.subrange(0, i as int),
        decreases digits@.len() - i,
    {
        v.push(digits[i]);
        i = i + 1;
        proof {
            assert(v@ =~= zeros(pad as int) + digits@.subrange(0, i as int));
        }
    }
    v.push(' ');
    proof {
        assert(digits@.subrange(0, digits@.len() as int) =~= digits@);
        assert(v@ =~= zeros(pad as int) + digits@ + seq![' ']);
    }
    chars_string(&v, 0, v.len())
}

/// The style name a task's line is rendered under: `done` when the task
/// is completed, else the name of its priority, else the empty name,
/// which resolves to plain text unless configured otherwise.
pub open spec fn spec_line_style(t: Task, styles: Seq<crate::style::Style>) -> ColorSpec {
    if t@.parsed.finished {
        resolve_style(styles, "done"@)
    } else if t@.parsed.priority <= 25 {
        resolve_style(styles, spec_pri_name(t@.parsed.priority))
    } else {
        resolve_style(styles, Seq::empty())
    }
}

/// The operations for one token of a task's raw text: a project or
/// context token is written under its own style and the line style is
/// restored after it, unless that kind is hidden, in which case the
/// token's text is left out; any other token is plain text under the
/// current style.
pub open spec fn spec_token_ops(
    tok: Seq<char>,
    base: ColorSpec,
    styles: Seq<crate::style::Style>,
    show_projects: bool,
    show_contexts: bool,
) -> Seq<OpV> {
    if tok.len() > 0 && tok[0] == '+' {
        if show_projects {
            seq![
                OpV::SetColor(resolve_style(styles, "project"@)),
                OpV::Text(tok),
                OpV::ResetStyle,
                OpV::SetColor(base),
            ]
        } else {
            Seq::empty()
        }
    } else if tok.len() > 0 && tok[0] == '@' {
        if show_contexts {
            seq![
                OpV::SetColor(resolve_style(styles, "context"@)),
                OpV::Text(tok),
                OpV::ResetStyle,
                OpV::SetColor(base),
            ]
        } else {
            Seq::empty()
        }
    } else {
        seq![OpV::Text(tok)]
    }
}

/// The operations for the tokens of a task from token `k` on; tokens are
/// separated by single spaces regardless of the original whitespace.
pub open spec fn spec_tokens_ops(
    toks: Seq<Seq<char>>,
    k: int,
    base: ColorSpec,
    styles: Seq<crate::style::Style>,
    show_projects: bool,
    show_contexts: bool,
) -> Seq<OpV>
    decreases toks.len() - k when 0 <= k <= toks.len()
{
    if k >= toks.len() {
        Seq::empty()
    } else {
        spec_token_ops(toks[k], base, styles, show_projects, show_contexts) + (if k + 1
            < toks.len() {
            seq![OpV::Text(seq![' '])]
        } else {
            Seq::empty()
        }) + spec_tokens_ops(toks, k + 1, base, styles, show_projects, show_contexts)
    }
}

/// The operations for one task line: its line style, the padded id, the
/// styled tokens, a reset when any style could be active, and a line
/// break.
pub open spec fn spec_render_task(
    t: Task,
    total: int,
    styles: Seq<crate::style::Style>,
    show_projects: bool,
    show_contexts: bool,
) -> Seq<OpV> {
    let base = spec_line_style(t, styles);
    seq![OpV::SetColor(base), OpV::Text(spec_padded_id(t@.id, total))] + spec_tokens_ops(
        tokens_of(t@.raw),
        0,
        base,
        styles,
        show_projects,
        show_contexts,
    ) + (if t@.parsed.priority != NO_PRIORITY || t@.parsed.finished {
        seq![OpV::ResetStyle]
    } else {
        Seq::empty()
    }) + seq![OpV::Newline]
}

/// The operations for a whole task list, in order.
pub open spec fn spec_render_tasks(
    tasks: Seq<Task>,
    total: int,
    styles: Seq<crate::style::Style>,
    show_projects: bool,
    show_contexts: bool,
) -> Seq<OpV>
    decreases tasks.len(),
{
    if tasks.len() == 0 {
        Seq::empty()
    } else {
        spec_render_tasks(tasks.drop_last(), total, styles, show_projects, show_contexts)
            + spec_render_task(tasks.last(), total, styles, show_projects, show_contexts)
    }
}

/// Render the operations for one token of a task's raw text.
fn render_token(
    raw: &Vec<char>,
    a: usize,
    b: usize,
    base: ColorSpec,
    ctx: &AppContext,
    buf: &mut Vec<OutputOp>,
)
    requires
        a < b <= raw@.len(),
    ensures
        ops_view(final(buf)@) == ops_view(old(buf)@) + spec_token_ops(
            raw@.subrange(a as int, b as int),
            base,
            ctx.styles@,
            ctx.opts.hide_project % 2 == 0,
            ctx.opts.hide_context % 2 == 0,
        ),
{
    let ghost tok = raw@.subrange(a as int, b as int);
    let first = raw[a];
    if first == '+' || first == '@' {
        let show = if first == '+' {
            ctx.opts.hide_project % 2 == 0
        } else {
            ctx.opts.hide_context % 2 == 0
        };
        if show {
            let style_name: &str = if first == '+' {
                "project"
            } else {
                "context"
            };
            let color = match get_colors_from_style(style_name, ctx) {
                Ok(c) => c,
                Err(_) => crate::style::ColorSpec::plain(),
            };
            buf.push(OutputOp::SetColor(color));
            let text = chars_string(raw, a, b);
            buf.push(OutputOp::Text(text));
            buf.push(OutputOp::ResetStyle);
            buf.push(OutputOp::SetColor(base));
        }
        proof {
            assert(ops_view(final(buf)@) =~= ops_view(old(buf)@) + spec_token_ops(
                tok,
                base,
                ctx.styles@,
                ctx.opts.hide_project % 2 == 0,
                ctx.opts.hide_context % 2 == 0,
            ));
        }
    } else {
        let text = chars_string(raw, a, b);
        buf.push(OutputOp::Text(text));
        proof {
            assert(ops_view(final(buf)@) =~= ops_view(old(buf)@) + spec_token_ops(
                tok,
                base,
                ctx.styles@,
                ctx.opts.hide_project % 2 == 0,
                ctx.opts.hide_context % 2 == 0,
            ));
        }
    }
}

/// Render the operations for one task line.
#[verifier::rlimit(60)]
fn render_task(t: &Task, total: usize, ctx: &AppContext, buf: &mut Vec<OutputOp>)
    ensures
        ops_view(final(buf)@) == ops_view(old(buf)@) + spec_render_task(
            *t,
            total as int,
            ctx.styles@,
            ctx.opts.hide_project % 2 == 0,
            ctx.opts.hide_context % 2 == 0,
        ),
{
    let ghost show_p = ctx.opts.hide_project % 2 == 0;
    let ghost show_c = ctx.opts.hide_context % 2 == 0;
    let base: ColorSpec = if t.parsed.finished {
        match get_colors_from_style("done", ctx) {
            Ok(c) => c,
            Err(_) => crate::style::ColorSpec::plain(),
        }
    } else {
        match get_pri_name(t.parsed.priority) {
            Some(pri_name) => {
                match get_colors_from_style(pri_name.as_str(), ctx) {
                    Ok(c) => c,
                    Err(_) => crate::style::ColorSpec::plain(),
                }
            },
            None => {
                match get_colors_from_style("", ctx) {
                    Ok(c) => c,
                    Err(_) => crate::style::ColorSpec::plain(),
                }
            },
        }
    };
    proof {
        reveal_strlit("");
        assert(""@ =~= Seq::<char>::empty());
        assert(base == spec_line_style(*t, ctx.styles@));
    }
    buf.push(OutputOp::SetColor(base));
    let idtext = padded_id(t.id, total);
    buf.push(OutputOp::Text(idtext));
    let ghost after_head = buf@;
    proof {
        assert(ops_view(after_head) =~= ops_view(old(buf)@) + seq![
            OpV::SetColor(base),
            OpV::Text(spec_padded_id(t@.id, total as int)),
        ]);
    }
    let raw = str_chars(t.raw.as_str());
    let spans = tokenize(&raw);
    let ghost toks = tokens_of(t@.raw);
    proof {
        lemma_spans_from_wf(raw@, 0);
        assert forall|k: int| 0 <= k < spans@.len() implies {
            &&& token_spans(raw@)[k] == (spans@[k].0 as int, spans@[k].1 as int)
            &&& spans@[k].0 < spans@[k].1 <= raw@.len()
        } by {
            assert(token_spans(raw@)[k] == spans_view(spans@)[k]);
        }
    }
    let n = spans.len();
    let mut k: usize = 0;
    while k < n
        invariant
            0 <= k <= n,
            n == spans@.len(),
            n == toks.len(),
            raw@ == t@.raw,
            toks == tokens_of(t@.raw),
            forall|j: int| 0 <= j < n ==> {
                &&& token_spans(raw@)[j] == (spans@[j].0 as int, spans@[j].1 as int)
                &&& spans@[j].0 < spans@[j].1 <= raw@.len()
            },
            show_p == (ctx.opts.hide_project % 2 == 0),
            show_c == (ctx.opts.hide_context % 2 == 0),
            ops_view(buf@) + spec_tokens_ops(toks, k as int, base, ctx.styles@, show_p, show_c)
                =~= ops_view(after_head) + spec_tokens_ops(
                toks,
                0,
                base,
                ctx.styles@,
                show_p,
                show_c,
            ),
        decreases n - k,
    {
        let sp = spans[k];
        let ghost buf0 = buf@;
        proof {
            assert(toks[k as int] =~= raw@.subrange(sp.0 as int, sp.1 as int));
        }
        render_token(&raw, sp.0, sp.1, base, ctx, buf);
        let ghost tokops = spec_token_ops(toks[k as int], base, ctx.styles@, show_p, show_c);
        proof {
            assert(ops_view(buf@) == ops_view(buf0) + tokops);
        }
        let ghost sepops: Seq<OpV> = if k + 1 < n {
            seq![OpV::Text(seq![' '])]
        } else {
            Seq::<OpV>::empty()
        };
        if k + 1 < n {
            let mut sep = String::new();
            push_char(&mut sep, ' ');
            proof {
                assert(sep@ =~= seq![' ']);
            }
            let ghost buf1 = buf@;
            buf.push(OutputOp::Text(sep));
            proof {
                assert(ops_view(buf@) =~= ops_view(buf1) + sepops);
            }
        }
        proof {
            assert(ops_view(buf@) =~= ops_view(buf0) + tokops + sepops);
            assert(spec_tokens_ops(toks, k as int, base, ctx.styles@, show_p, show_c) == tokops
                + sepops + spec_tokens_ops(toks, k + 1, base, ctx.styles@, show_p, show_c));
        }
        k = k + 1;
        proof {
            assert(ops_view(buf@) + spec_tokens_ops(
                toks,
                k as int,
                base,
                ctx.styles@,
                show_p,
                show_c,
            ) =~= ops_view(buf0) + spec_tokens_ops(
                toks,
                k - 1,
                base,
                ctx.styles@,
                show_p,
                show_c,
            ));
        }
    }
    proof {
        assert(spec_tokens_ops(toks, n as int, base, ctx.styles@, show_p, show_c) =~= Seq::<
            OpV,
        >::empty());
        assert(ops_view(buf@) =~= ops_view(after_head) + spec_tokens_ops(
            toks,
            0,
            base,
            ctx.styles@,
            show_p,
            show_c,
        ));
    }
    let ghost after_toks = buf@;
    let ghost resetops: Seq<OpV> = if t@.parsed.priority != NO_PRIORITY || t@.parsed.finished {
        seq![OpV::ResetStyle]
    } else {
        Seq::<OpV>::empty()
    };
    if t.parsed.priority != NO_PRIORITY || t.parsed.finished {
        buf.push(OutputOp::ResetStyle);
    }
    proof {
        assert(ops_view(buf@) =~= ops_view(after_toks) + resetops);
    }
    let ghost after_reset = buf@;
    buf.push(OutputOp::Newline);
    proof {
        assert(ops_view(buf@) =~= ops_view(after_reset) + seq![OpV::Newline]);
        assert(ops_view(final(buf)@) =~= ops_view(old(buf)@) + spec_render_task(
            *t,
            total as int,
            ctx.styles@,
            show_p,
            show_c,
        ));
    }
}

/// Fill the output buffer with the styled rendering of every task in the
/// context, in order, padded to the width of the loaded task count.
/// Rendering never fails; the error type is kept for callers that treat
/// it as fallible.
pub fn format_buffer(buf: &mut Vec<OutputOp>, ctx: &AppContext) -> (r: Result<(), ErrorType>)
    ensures
        r is Ok,
        ops_view(final(buf)@) == ops_view(old(buf)@) + spec_render_tasks(
            ctx.tasks@,
            ctx.task_ct as int,
            ctx.styles@,
            ctx.opts.hide_project % 2 == 0,
            ctx.opts.hide_context % 2 == 0,
        ),
{
    let ghost show_p = ctx.opts.hide_project % 2 == 0;
    let ghost show_c = ctx.opts.hide_context % 2 == 0;
    let n = ctx.tasks.0.len();
    let mut i: usize = 0;
    proof {
        assert(ops_view(buf@) + spec_render_tasks(
            ctx.tasks@.subrange(0, 0),
            ctx.task_ct as int,
            ctx.styles@,
            show_p,
            show_c,
        ) =~= ops_view(buf@));
    }
    while i < n
        invariant
            0 <= i <= n,
            n == ctx.tasks@.len(),
            show_p == (ctx.opts.hide_project % 2 == 0),
            show_c == (ctx.opts.hide_context % 2 == 0),
            ops_view(buf@) =~= ops_view(old(buf)@) + spec_render_tasks(
                ctx.tasks@.subrange(0, i as int),
                ctx.task_ct as int,
                ctx.styles@,
                show_p,
                show_c,
            ),
        decreases n - i,
    {
        let t = &ctx.tasks.0[i];
        render_task(t, ctx.task_ct, ctx, buf);
        proof {
            assert(ctx.tasks@.subrange(0, i + 1).drop_last() =~= ctx.tasks@.subrange(0, i as int));
            assert(ctx.tasks@.subrange(0, i + 1).last() == ctx.tasks@[i as int]);
            assert(ops_view(buf@) =~= ops_view(old(buf)@) + spec_render_tasks(
                ctx.tasks@.subrange(0, i + 1),
                ctx.task_ct as int,
                ctx.styles@,
                show_p,
                show_c,
            ));
        }
        i = i + 1;
    }
    proof {
        assert(ctx.tasks@.subrange(0, n as int) =~= ctx.tasks@);
    }
    Ok(())
}

/// The plain text an operation list carries: the concatenation of its
/// text operations, with styles, resets and line breaks carrying none.
pub open spec fn text_of_ops(ops: Seq<OpV>) -> Seq<char>
    decreases ops.len(),
{
    if ops.len() == 0 {
        Seq::empty()
    } else {
        text_of_ops(ops.drop_last()) + (match ops.last() {
            OpV::Text(s) => s,
            _ => Seq::empty(),
        })
    }
}

/// The text of concatenated operation lists is the concatenation of
/// their texts.
proof fn lemma_text_of_concat(a: Seq<OpV>, b: Seq<OpV>)
    ensures
        text_of_ops(a + b) == text_of_ops(a) + text_of_ops(b),
    decreases b.len(),
{
    if b.len() == 0 {
        assert(a + b =~= a);
        assert(text_of_ops(a) + text_of_ops(b) =~= text_of_ops(a));
    } else {
        assert((a + b).drop_last() =~= a + b.drop_last());
        lemma_text_of_concat(a, b.drop_last());
        assert(text_of_ops(a + b) =~= text_of_ops(a) + text_of_ops(b));
    }
}

/// With nothing hidden, the operations of one token carry exactly the
/// token's text.
proof fn lemma_token_ops_text(tok: Seq<char>, base: ColorSpec, styles: Seq<crate::style::Style>)
    ensures
        text_of_ops(spec_token_ops(tok, base, styles, true, true)) == tok,
{
    reveal_with_fuel(text_of_ops, 6);
    let ops = spec_token_ops(tok, base, styles, true, true);
    if tok.len() > 0 && (tok[0] == '+' || tok[0] == '@') {
        assert(ops.drop_last() =~= ops.subrange(0, 3));
        assert(ops.subrange(0, 3).drop_last() =~= ops.subrange(0, 2));
        assert(ops.subrange(0, 2).drop_last() =~= ops.subrange(0, 1));
        assert(ops.subrange(0, 1).drop_last() =~= Seq::<OpV>::empty());
        assert(text_of_ops(ops) =~= tok);
    } else {
        assert(ops.drop_last() =~= Seq::<OpV>::empty());
        assert(text_of_ops(ops) =~= tok);
    }
}

/// With nothing hidden, the operations for the tokens from `k` on carry
/// exactly those tokens joined by single spaces.
proof fn lemma_tokens_ops_text(
    toks: Seq<Seq<char>>,
    k: int,
    base: ColorSpec,
    styles: Seq<crate::style::Style>,
)
    requires
        0 <= k <= toks.len(),
    ensures
        text_of_ops(spec_tokens_ops(toks, k, base, styles, true, true)) == crate::text::join_with_spaces(
            toks.skip(k),
        ),
    decreases toks.len() - k,
{
    reveal_with_fuel(text_of_ops, 3);
    if k >= toks.len() {
        assert(toks.skip(k) =~= Seq::<Seq<char>>::empty());
        assert(text_of_ops(Seq::<OpV>::empty()) =~= Seq::<char>::empty());
    } else {
        let tokops = spec_token_ops(toks[k], base, styles, true, true);
        let sep: Seq<OpV> = if k + 1 < toks.len() {
            seq![OpV::Text(seq![' '])]
        } else {
            Seq::empty()
        };
        let rest = spec_tokens_ops(toks, k + 1, base, styles, true, true);
        lemma_token_ops_text(toks[k], base, styles);
        lemma_tokens_ops_text(toks, k + 1, base, styles);
        lemma_text_of_concat(tokops, sep);
        lemma_text_of_concat(tokops + sep, rest);
        assert(text_of_ops(sep) =~= if k + 1 < toks.len() {
            seq![' ']
        } else {
            Seq::<char>::empty()
        }) by {
            if k + 1 < toks.len() {
                assert(sep.drop_last() =~= Seq::<OpV>::empty());
            }
        }
        if k + 1 < toks.len() {
            assert(toks.skip(k).drop_first() =~= toks.skip(k + 1));
            assert(text_of_ops(spec_tokens_ops(toks, k, base, styles, true, true)) =~= toks[k]
                + seq![' '] + crate::text::join_with_spaces(toks.skip(k + 1)));
            assert(crate::text::join_with_spaces(toks.skip(k)) =~= toks.skip(k)[0] + seq![' ']
                + crate::text::join_with_spaces(toks.skip(k).drop_first()));
        } else {
            assert(toks.skip(k) =~= seq![toks[k]]);
            assert(text_of_ops(spec_tokens_ops(toks, k, base, styles, true, true)) =~= toks[k]);
            assert(crate::text::join_with_spaces(seq![toks[k]]) == toks[k]);
        }
    }
}

/// Round-trip identity: rendering a task with nothing hidden writes, as
/// its text, exactly the padded id followed by the task's raw line in
/// whitespace-normalized form — the raw tokens, joined by single spaces.
/// Styles, resets and line breaks add no text.
pub proof fn lemma_render_round_trip(
    t: Task,
    total: int,
    styles: Seq<crate::style::Style>,
)
    ensures
        text_of_ops(spec_render_task(t, total, styles, true, true)) == spec_padded_id(
            t@.id,
            total,
        ) + crate::text::normalized(t@.raw),
{
    reveal_with_fuel(text_of_ops, 4);
    let base = spec_line_style(t, styles);
    let head = seq![OpV::SetColor(base), OpV::Text(spec_padded_id(t@.id, total))];
    let toks = tokens_of(t@.raw);
    let mid = spec_tokens_ops(toks, 0, base, styles, true, true);
    let resets: Seq<OpV> = if t@.parsed.priority != NO_PRIORITY || t@.parsed.finished {
        seq![OpV::ResetStyle]
    } else {
        Seq::empty()
    };
    let tail = seq![OpV::Newline];
    lemma_text_of_concat(head, mid);
    lemma_text_of_concat(head + mid, resets);
    lemma_text_of_concat(head + mid + resets, tail);
    lemma_tokens_ops_text(toks, 0, base, styles);
    assert(toks.skip(0) =~= toks);
    assert(text_of_ops(head) =~= spec_padded_id(t@.id, total)) by {
        assert(head.drop_last() =~= seq![OpV::SetColor(base)]);
        assert(seq![OpV::SetColor(base)].drop_last() =~= Seq::<OpV>::empty());
    }
    assert(text_of_ops(resets) =~= Seq::<char>::empty()) by {
        if resets.len() > 0 {
            assert(resets.drop_last() =~= Seq::<OpV>::empty());
        }
    }
    assert(text_of_ops(tail) =~= Seq::<char>::empty()) by {
        assert(tail.drop_last() =~= Seq::<OpV>::empty());
    }
    assert(text_of_ops(spec_render_task(t, total, styles, true, true)) =~= spec_padded_id(
        t@.id,
        total,
    ) + crate::text::normalized(t@.raw));
}

impl Task {
    /// The task as one plain line: its id zero-padded to the width of the
    /// total count, one space, and the raw text.
    pub fn stringify(&self, task_ct: usize) -> (s: String)
        ensures
            s@ == spec_padded_id(self@.id, task_ct as int) + self@.raw,
    {
        let mut s = padded_id(self.id, task_ct);
        s.append(self.raw.as_str());
        s
    }
}

/// The text of a task list: each task's raw line followed by a line
/// break.
pub open spec fn spec_tasks_text(tasks: Seq<Task>) -> Seq<char>
    decreases tasks.len(),
{
    if tasks.len() == 0 {
        Seq::empty()
    } else {
        spec_tasks_text(tasks.drop_last()) + tasks.last()@.raw + seq!['\n']
    }
}

impl Tasks {
    /// The whole collection as newline-terminated text.
    pub fn to_text(&self) -> (s: String)
        ensures
            s@ == spec_tasks_text(self@),
    {
        let mut s = String::new();
        let n = self.0.len();
        let mut i: usize = 0;
        proof {
            assert(spec_tasks_text(self@.subrange(0, 0)) =~= Seq::<char>::empty());
        }
        while i < n
            invariant
                0 <= i <= n,
                n == self@.len(),
                s@ =~= spec_tasks_text(self@.subrange(0, i as int)),
            decreases n - i,
        {
            s.append(self.0[i].raw.as_str());
            push_char(&mut s, '\n');
            proof {
                assert(self@.subrange(0, i + 1).drop_last() =~= self@.subrange(0, i as int));
                assert(self@.subrange(0, i + 1).last() == self@[i as int]);
                assert(s@ =~= spec_tasks_text(self@.subrange(0, i + 1)));
            }
            i = i + 1;
        }
        proof {
            assert(self@.subrange(0, n as int) =~= self@);
        }
        s
    }
}

/// Turn the context's task list into newline-delimited text for
/// write-back, first dropping blank lines when the options ask for it.
pub fn tasks_to_string(ctx: &mut AppContext) -> (r: Result<String, ErrorType>)
    ensures
        old(ctx).opts.remove_blank_lines ==> final(ctx).tasks@ == old(ctx).tasks@.filter(
            crate::tasks::non_blank_pred(),
        ),
        !old(ctx).opts.remove_blank_lines ==> final(ctx).tasks@ == old(ctx).tasks@,
        r matches Ok(s) && s@ == spec_tasks_text(final(ctx).tasks@),
{
    if ctx.opts.remove_blank_lines {
        ctx.tasks.remove_blanks();
    }
    Ok(ctx.tasks.to_text())
}

} // verus!
