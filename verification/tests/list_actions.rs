use todors::actions::{add, delete};
use todors::config::{AppContext, Opt, Settings};
use todors::errors::ErrorType;
use todors::list::list;
use todors::render::{tasks_to_string, OutputOp};
use todors::sort::{SortBy, SortByField};
use todors::task::Task;
use todors::tasks::Tasks;

fn collection(lines: &[&str]) -> Tasks {
    let mut v = Vec::new();
    let mut id = 0usize;
    for line in lines {
        id += 1;
        v.push(Task::new(id, line));
    }
    Tasks(v)
}

fn context_with(lines: &[&str]) -> AppContext {
    let tasks = collection(lines);
    let ct = tasks.0.len();
    AppContext {
        opts: Opt::new(),
        settings: Settings::new(),
        styles: Vec::new(),
        tasks,
        done: Tasks(Vec::new()),
        task_ct: ct,
        done_ct: 0,
    }
}

fn text_of(ops: &[OutputOp]) -> String {
    let mut s = String::new();
    for op in ops {
        match op {
            OutputOp::Text(t) => s.push_str(t.as_str()),
            OutputOp::Newline => s.push('\n'),
            _ => {}
        }
    }
    s
}

#[test]
fn list_scenario_filter_and_footer() {
    let mut ctx = context_with(&[
        "(A) Call mom +family @phone",
        "x 2024-01-02 2024-01-01 Buy milk @errands",
        "Write report +work due:2024-02-01",
    ]);
    ctx.opts.sort_by = vec![SortBy { field: SortByField::Id, reverse: false }];
    let mut ops: Vec<OutputOp> = Vec::new();
    let terms = vec!["@phone".to_string()];
    list(&terms, &mut ops, &mut ctx, false).unwrap();
    assert_eq!(ctx.tasks.len(), 1);
    assert_eq!(ctx.tasks.0[0].raw, "(A) Call mom +family @phone");
    assert_eq!(ctx.tasks.0[0].id, 1);
    assert_eq!(
        text_of(&ops),
        "1 (A) Call mom +family @phone\n--\nTODO: 1 of 3 tasks shown\n"
    );
}

#[test]
fn list_all_merges_done_under_id_zero() {
    let mut ctx = context_with(&["active one"]);
    ctx.done = collection(&["x done one", "x done two"]);
    ctx.opts.sort_by = vec![SortBy { field: SortByField::Id, reverse: false }];
    let mut ops: Vec<OutputOp> = Vec::new();
    let terms: Vec<String> = Vec::new();
    list(&terms, &mut ops, &mut ctx, true).unwrap();
    // done tasks carry id 0 and sort before the active task
    assert_eq!(ctx.tasks.len(), 3);
    assert_eq!(ctx.tasks.0[0].id, 0);
    assert_eq!(ctx.tasks.0[0].raw, "x done one");
    assert_eq!(ctx.tasks.0[1].raw, "x done two");
    assert_eq!(ctx.tasks.0[2].raw, "active one");
    let text = text_of(&ops);
    assert!(text.ends_with(
        "--\nTODO: 1 of 1 tasks shown\nDONE: 2 of 2 tasks shown\ntotal 3 of 3 tasks shown\n"
    ));
}

#[test]
fn list_drops_blank_lines_from_display() {
    let mut ctx = context_with(&["first", "", "third"]);
    ctx.opts.sort_by = vec![SortBy { field: SortByField::Id, reverse: false }];
    let mut ops: Vec<OutputOp> = Vec::new();
    let terms: Vec<String> = Vec::new();
    list(&terms, &mut ops, &mut ctx, false).unwrap();
    assert_eq!(text_of(&ops), "1 first\n3 third\n--\nTODO: 2 of 2 tasks shown\n");
}

#[test]
fn list_malformed_term_aborts_with_no_output() {
    let mut ctx = context_with(&["a", "b"]);
    ctx.opts.sort_by = vec![SortBy { field: SortByField::Id, reverse: false }];
    let mut ops: Vec<OutputOp> = Vec::new();
    let terms = vec!["(".to_string()];
    let r = list(&terms, &mut ops, &mut ctx, false);
    assert_eq!(r, Err(ErrorType::MalformedFilterExpression));
    assert!(ops.is_empty());
    assert_eq!(ctx.tasks.len(), 2);
}

#[test]
fn list_drops_whitespace_only_lines() {
    let mut ctx = context_with(&["first", "   ", "third"]);
    ctx.opts.sort_by = vec![SortBy { field: SortByField::Id, reverse: false }];
    let mut ops: Vec<OutputOp> = Vec::new();
    let terms: Vec<String> = Vec::new();
    list(&terms, &mut ops, &mut ctx, false).unwrap();
    assert_eq!(text_of(&ops), "1 first\n3 third\n--\nTODO: 2 of 2 tasks shown\n");
}

#[test]
fn add_plain() {
    let mut ctx = context_with(&[]);
    ctx.task_ct = 4;
    let t = add("new thing +p".to_string(), &mut ctx).unwrap();
    assert_eq!(ctx.task_ct, 5);
    assert_eq!(t.id, 5);
    assert_eq!(t.raw, "new thing +p");
    assert_eq!(t.parsed.projects, vec!["p".to_string()]);
}

#[test]
fn add_with_date_prefix() {
    let mut ctx = context_with(&[]);
    ctx.opts.date_on_add = true;
    let t = add("new thing".to_string(), &mut ctx).unwrap();
    assert_eq!(t.raw.len(), 11 + "new thing".len());
    assert_eq!(&t.raw[11..], "new thing");
    let prefix: Vec<char> = t.raw.chars().take(11).collect();
    assert_eq!(prefix[4], '-');
    assert_eq!(prefix[7], '-');
    assert_eq!(prefix[10], ' ');
    assert!(prefix[0].is_ascii_digit() && prefix[9].is_ascii_digit());
    // the prefix parses as a creation date
    assert!(t.parsed.create_date.is_some());
}

#[test]
fn delete_term_removes_text() {
    let mut ctx = context_with(&["call mom @phone", "water plants"]);
    let term = Some(" @phone".to_string());
    let r = delete(1, &term, &mut ctx).unwrap();
    assert!(r);
    assert_eq!(ctx.tasks.0[0].raw, "call mom");
    assert_eq!(ctx.tasks.0[1].raw, "water plants");
}

#[test]
fn delete_term_not_found_reports_false() {
    let mut ctx = context_with(&["call mom"]);
    let term = Some("zebra".to_string());
    let r = delete(1, &term, &mut ctx).unwrap();
    assert!(!r);
    assert_eq!(ctx.tasks.0[0].raw, "call mom");
}

#[test]
fn delete_invalid_regex_is_an_error() {
    let mut ctx = context_with(&["call mom"]);
    let term = Some("(".to_string());
    let r = delete(1, &term, &mut ctx);
    assert_eq!(r, Err(ErrorType::ParseError));
    assert_eq!(ctx.tasks.0[0].raw, "call mom");
}

#[test]
fn delete_whole_task_blanks_it() {
    let mut ctx = context_with(&["one", "two"]);
    let r = delete(2, &None, &mut ctx).unwrap();
    assert!(r);
    assert_eq!(ctx.tasks.0[1].raw, "");
    assert_eq!(ctx.tasks.0[1].id, 2);
    let missing = delete(9, &None, &mut ctx).unwrap();
    assert!(!missing);
}

#[test]
fn tasks_to_string_respects_blank_removal() {
    let mut ctx = context_with(&["a", "", "b"]);
    let kept = tasks_to_string(&mut ctx).unwrap();
    assert_eq!(kept, "a\n\nb\n");
    let mut ctx2 = context_with(&["a", "", "b"]);
    ctx2.opts.remove_blank_lines = true;
    let removed = tasks_to_string(&mut ctx2).unwrap();
    assert_eq!(removed, "a\nb\n");
}

#[test]
fn answer_is_yes_checks_first_letter() {
    assert!(todors::util::answer_is_yes("y\n"));
    assert!(todors::util::answer_is_yes("Yes please"));
    assert!(!todors::util::answer_is_yes("no"));
    assert!(!todors::util::answer_is_yes(""));
}
