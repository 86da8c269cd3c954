use todors::color::{Color, Difference, StyleContext, StyleSpec};
use todors::config::{AppContext, Opt, Settings};
use todors::render::{format_buffer, OutputOp};
use todors::style::{get_colors_from_style, ColorSpec, Style};
use todors::task::Task;
use todors::tasks::Tasks;
use todors::util::get_pri_name;

fn context_with(lines: &[&str], styles: Vec<Style>) -> AppContext {
    let mut v = Vec::new();
    let mut id = 0usize;
    for line in lines {
        id += 1;
        v.push(Task::new(id, line));
    }
    AppContext {
        opts: Opt::new(),
        settings: Settings::new(),
        styles,
        tasks: Tasks(v),
        done: Tasks(Vec::new()),
        task_ct: id,
        done_ct: 0,
    }
}

fn text_of(ops: &[OutputOp]) -> String {
    let mut s = String::new();
    for op in ops {
        match op {
            OutputOp::Text(t) => s.push_str(t.as_str()),
            OutputOp::Newline => s.push('\n'),
            _ => {}
        }
    }
    s
}

#[test]
fn pri_names() {
    assert_eq!(get_pri_name(0).unwrap(), "pri_a");
    assert_eq!(get_pri_name(2).unwrap(), "pri_c");
    assert_eq!(get_pri_name(25).unwrap(), "pri_z");
    assert!(get_pri_name(26).is_none());
}

#[test]
fn default_styles() {
    assert_eq!(Style::default("pri_a").color_fg, Some(198));
    assert_eq!(Style::default("pri_b").color_fg, Some(2));
    assert_eq!(Style::default("pri_c").color_fg, Some(4));
    assert_eq!(Style::default("pri_d").color_fg, Some(37));
    assert_eq!(Style::default("pri_q").color_fg, Some(179));
    assert_eq!(Style::default("project").color_fg, Some(154));
    assert_eq!(Style::default("context").color_fg, Some(215));
    assert_eq!(Style::default("done").color_fg, None);
    assert_eq!(Style::default("unknown").color_fg, None);
}

#[test]
fn style_override_merges_field_by_field() {
    // an override that only sets bold keeps the default foreground color
    let ctx = context_with(
        &[],
        vec![Style {
            name: "Project".to_string(),
            color_fg: None,
            color_bg: None,
            bold: Some(true),
            intense: None,
            underline: None,
        }],
    );
    let c = get_colors_from_style("project", &ctx).unwrap();
    assert_eq!(c.fg, Some(154));
    assert!(c.bold);
    assert!(!c.underline);
    assert_eq!(c.bg, None);
}

#[test]
fn style_unknown_name_is_plain() {
    let ctx = context_with(&[], Vec::new());
    let c = get_colors_from_style("nonesuch", &ctx).unwrap();
    assert_eq!(c, ColorSpec::plain());
}

#[test]
fn render_line_styles_and_text() {
    let ctx = context_with(&["(A) Call mom +family @phone"], Vec::new());
    let mut ops: Vec<OutputOp> = Vec::new();
    format_buffer(&mut ops, &ctx).unwrap();
    // line style first: pri_a color for the whole line
    match &ops[0] {
        OutputOp::SetColor(c) => assert_eq!(c.fg, Some(198)),
        other => panic!("expected a style switch, got {:?}", other),
    }
    // +family under the project color, @phone under the context color,
    // each followed by a reset and the line style again
    let mut saw_project = false;
    let mut saw_context = false;
    for (i, op) in ops.iter().enumerate() {
        if let OutputOp::Text(t) = op {
            if t == "+family" {
                saw_project = true;
                match &ops[i - 1] {
                    OutputOp::SetColor(c) => assert_eq!(c.fg, Some(154)),
                    other => panic!("expected project style, got {:?}", other),
                }
                assert!(matches!(ops[i + 1], OutputOp::ResetStyle));
                match &ops[i + 2] {
                    OutputOp::SetColor(c) => assert_eq!(c.fg, Some(198)),
                    other => panic!("expected line style back, got {:?}", other),
                }
            }
            if t == "@phone" {
                saw_context = true;
                match &ops[i - 1] {
                    OutputOp::SetColor(c) => assert_eq!(c.fg, Some(215)),
                    other => panic!("expected context style, got {:?}", other),
                }
            }
        }
    }
    assert!(saw_project && saw_context);
    assert_eq!(text_of(&ops), "1 (A) Call mom +family @phone\n");
}

#[test]
fn render_round_trip_normalizes_whitespace() {
    let raw = "  (A)   Call  mom   +family  @phone ";
    let ctx = context_with(&[raw], Vec::new());
    let mut ops: Vec<OutputOp> = Vec::new();
    format_buffer(&mut ops, &ctx).unwrap();
    let expected = Task::new(1, raw).normalize_whitespace().raw;
    assert_eq!(text_of(&ops), format!("1 {}\n", expected));
}

#[test]
fn render_pads_ids_to_total_width() {
    let mut ctx = context_with(&["only line"], Vec::new());
    ctx.task_ct = 120;
    let mut ops: Vec<OutputOp> = Vec::new();
    format_buffer(&mut ops, &ctx).unwrap();
    assert_eq!(text_of(&ops), "001 only line\n");
}

#[test]
fn render_hides_projects_and_contexts() {
    let mut ctx = context_with(&["a +p @c b"], Vec::new());
    ctx.opts.hide_project = 1;
    ctx.opts.hide_context = 1;
    let mut ops: Vec<OutputOp> = Vec::new();
    format_buffer(&mut ops, &ctx).unwrap();
    // hidden tokens keep their separating spaces, as the original spacing rule says
    assert_eq!(text_of(&ops), "1 a   b\n");
    // hiding twice unhides
    ctx.opts.hide_project = 2;
    ctx.opts.hide_context = 2;
    let mut ops2: Vec<OutputOp> = Vec::new();
    format_buffer(&mut ops2, &ctx).unwrap();
    assert_eq!(text_of(&ops2), "1 a +p @c b\n");
}

#[test]
fn stringify_pads() {
    let t = Task::new(3, "buy milk");
    assert_eq!(t.stringify(100), "003 buy milk");
    assert_eq!(t.stringify(9), "3 buy milk");
}

#[test]
fn tasks_to_text() {
    let ctx = context_with(&["a", "b"], Vec::new());
    assert_eq!(ctx.tasks.to_text(), "a\nb\n");
}

#[test]
fn difference_three_ways() {
    let plain = StyleContext::plain();
    let mut bold = plain;
    bold.add(StyleSpec::Bold);
    let mut bold_red = bold;
    bold_red.add(StyleSpec::Fg(Color::Red));
    // no change
    assert!(matches!(Difference::between(&bold, &bold), Difference::NoChange));
    // additions only: the added attributes alone are written
    match Difference::between(&bold, &bold_red) {
        Difference::AddOnly(d) => {
            assert_eq!(d.fg, Some(Color::Red));
            assert!(!d.bold);
        }
        other => panic!("expected additions, got {:?}", other),
    }
    // removal forces a reset
    assert!(matches!(Difference::between(&bold_red, &bold), Difference::MustReset));
    assert!(matches!(Difference::between(&bold, &plain), Difference::MustReset));
}

#[test]
fn write_difference_emits_minimal_codes() {
    let plain = StyleContext::plain();
    let mut red = plain;
    red.add(StyleSpec::Fg(Color::Red));
    let mut red_bold = red;
    red_bold.add(StyleSpec::Bold);
    // additive switch: only the new attribute
    let mut out: Vec<StyleSpec> = Vec::new();
    red_bold.write_difference(&mut out, &red);
    assert_eq!(out, vec![StyleSpec::Bold]);
    // removing bold: full reset, then the requested state
    let mut out2: Vec<StyleSpec> = Vec::new();
    red.write_difference(&mut out2, &red_bold);
    assert_eq!(out2, vec![StyleSpec::Reset, StyleSpec::Fg(Color::Red)]);
    // equal states: nothing
    let mut out3: Vec<StyleSpec> = Vec::new();
    red.write_difference(&mut out3, &red);
    assert!(out3.is_empty());
}

#[test]
fn from_specs_applies_in_order() {
    let c = StyleContext::from_specs(&[
        StyleSpec::Bold,
        StyleSpec::Fg(Color::Blue),
        StyleSpec::Reset,
        StyleSpec::Underline,
    ]);
    let mut expect = StyleContext::plain();
    expect.add(StyleSpec::Underline);
    assert_eq!(c, expect);
}
