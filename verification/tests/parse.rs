use todors::date::Date;
use todors::task::{Task, NO_PRIORITY};

const STR_TASK: &str =
    "x (C) 2019-12-18 Get new +pricing for +item @work due:2019-12-31 t:2019-12-25";
const SUBJECT: &str = "Get new +pricing for +item @work due:2019-12-31 t:2019-12-25";

#[test]
fn str_to_task() {
    let task = Task::new(1, STR_TASK);
    assert!(task.parsed.finished);
    assert_eq!(task.parsed.priority, 2);
    assert_eq!(task.parsed.subject, SUBJECT);
    assert_eq!(task.parsed.contexts, vec!["work".to_string()]);
    assert_eq!(
        task.parsed.projects,
        vec!["pricing".to_string(), "item".to_string()]
    );
    assert_eq!(task.parsed.create_date, Some(Date { y: 2019, m: 12, d: 18 }));
    assert_eq!(task.parsed.finish_date, None);
    assert_eq!(task.parsed.due_date, Some(Date { y: 2019, m: 12, d: 31 }));
    assert_eq!(
        task.parsed.threshold_date,
        Some(Date { y: 2019, m: 12, d: 25 })
    );
}

#[test]
fn str_to_struct() {
    let task = Task::new(7, STR_TASK);
    assert_eq!(task.id, 7);
    assert_eq!(task.raw, STR_TASK);
    assert_eq!(task.parsed.subject, SUBJECT);
    assert_eq!(task.parsed.priority, 2);
    assert!(task.parsed.finished);
    assert_eq!(task.parsed.finish_date, None);
    assert_eq!(task.parsed.create_date, Some(Date { y: 2019, m: 12, d: 18 }));
    assert_eq!(task.parsed.due_date, Some(Date { y: 2019, m: 12, d: 31 }));
    assert_eq!(
        task.parsed.threshold_date,
        Some(Date { y: 2019, m: 12, d: 25 })
    );
}

#[test]
fn completed_two_dates() {
    let task = Task::new(2, "x 2024-01-02 2024-01-01 Buy milk @errands");
    assert!(task.parsed.finished);
    assert_eq!(task.parsed.finish_date, Some(Date { y: 2024, m: 1, d: 2 }));
    assert_eq!(task.parsed.create_date, Some(Date { y: 2024, m: 1, d: 1 }));
    assert_eq!(task.parsed.subject, "Buy milk @errands");
    assert_eq!(task.parsed.contexts, vec!["errands".to_string()]);
    assert!(task.parsed.projects.is_empty());
}

#[test]
fn completed_single_date_is_creation() {
    // one date after the completion marker is a creation date, by position
    let task = Task::new(1, "x 2024-01-02 Buy milk");
    assert!(task.parsed.finished);
    assert_eq!(task.parsed.finish_date, None);
    assert_eq!(task.parsed.create_date, Some(Date { y: 2024, m: 1, d: 2 }));
    assert_eq!(task.parsed.subject, "Buy milk");
}

#[test]
fn priority_line() {
    let task = Task::new(1, "(A) Call mom +family @phone");
    assert!(!task.parsed.finished);
    assert_eq!(task.parsed.priority, 0);
    assert_eq!(task.parsed.subject, "Call mom +family @phone");
    assert_eq!(task.parsed.projects, vec!["family".to_string()]);
    assert_eq!(task.parsed.contexts, vec!["phone".to_string()]);
}

#[test]
fn no_priority_is_lowest_rank() {
    let task = Task::new(1, "Write report +work due:2024-02-01");
    assert_eq!(task.parsed.priority, NO_PRIORITY);
    assert_eq!(task.parsed.due_date, Some(Date { y: 2024, m: 2, d: 1 }));
}

#[test]
fn empty_line_is_blank() {
    let task = Task::new(5, "");
    assert!(task.is_blank());
    assert!(!task.parsed.finished);
    assert_eq!(task.parsed.priority, NO_PRIORITY);
    assert_eq!(task.parsed.subject, "");
    assert!(task.parsed.projects.is_empty());
    assert!(task.parsed.contexts.is_empty());
    assert_eq!(task.parsed.create_date, None);
}

#[test]
fn whitespace_only_line_is_blank_but_raw_is_kept() {
    let task = Task::new(1, "   \t ");
    assert!(task.is_blank());
    assert_eq!(task.raw, "   \t ");
    assert_eq!(task.parsed.subject, "");
}

#[test]
fn parse_is_idempotent() {
    let lines = [
        "x (C) 2019-12-18 Get new +pricing for +item @work due:2019-12-31 t:2019-12-25",
        "(A) Call mom +family @phone",
        "  spaced   out +p @c due:xxxx-yy-zz",
        "",
    ];
    for line in lines {
        let once = Task::new(1, line);
        let twice = Task::new(1, once.raw.as_str());
        assert_eq!(once.parsed.finished, twice.parsed.finished);
        assert_eq!(once.parsed.priority, twice.parsed.priority);
        assert_eq!(once.parsed.finish_date, twice.parsed.finish_date);
        assert_eq!(once.parsed.create_date, twice.parsed.create_date);
        assert_eq!(once.parsed.due_date, twice.parsed.due_date);
        assert_eq!(once.parsed.threshold_date, twice.parsed.threshold_date);
        assert_eq!(once.parsed.subject, twice.parsed.subject);
        assert_eq!(once.parsed.projects, twice.parsed.projects);
        assert_eq!(once.parsed.contexts, twice.parsed.contexts);
        assert_eq!(once.raw, twice.raw);
    }
}

#[test]
fn bad_date_fragments_stay_subject_text() {
    let task = Task::new(1, "pay rent due:2024-13-01 t:2023-02-29");
    assert_eq!(task.parsed.due_date, None);
    assert_eq!(task.parsed.threshold_date, None);
    assert_eq!(task.parsed.subject, "pay rent due:2024-13-01 t:2023-02-29");
}

#[test]
fn leap_year_dates() {
    let ok = Task::new(1, "a due:2024-02-29");
    assert_eq!(ok.parsed.due_date, Some(Date { y: 2024, m: 2, d: 29 }));
    let bad = Task::new(1, "a due:1900-02-29");
    assert_eq!(bad.parsed.due_date, None);
    let ok400 = Task::new(1, "a due:2000-02-29");
    assert_eq!(ok400.parsed.due_date, Some(Date { y: 2000, m: 2, d: 29 }));
}

#[test]
fn later_tag_wins() {
    let task = Task::new(1, "a due:2024-01-01 due:2024-06-30");
    assert_eq!(task.parsed.due_date, Some(Date { y: 2024, m: 6, d: 30 }));
}

#[test]
fn normalize_whitespace_condenses_runs() {
    let task = Task::new(3, "  (A)   Call  mom\t+family   @phone ");
    let norm = task.normalize_whitespace();
    assert_eq!(norm.raw, "(A) Call mom +family @phone");
    assert_eq!(norm.id, 3);
    assert_eq!(norm.parsed.priority, 0);
}

#[test]
fn clear_keeps_id() {
    let task = Task::new(9, "(B) something");
    let blank = task.clear();
    assert_eq!(blank.id, 9);
    assert_eq!(blank.raw, "");
    assert!(blank.is_blank());
}
