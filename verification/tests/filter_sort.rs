use todors::sort::{SortBy, SortByField};
use todors::task::Task;
use todors::tasks::Tasks;

fn collection(lines: &[&str]) -> Tasks {
    let mut v = Vec::new();
    let mut id = 0usize;
    for line in lines {
        id += 1;
        v.push(Task::new(id, line));
    }
    Tasks(v)
}

fn raws(tasks: &Tasks) -> Vec<String> {
    tasks.0.iter().map(|t| t.raw.clone()).collect()
}

#[test]
fn filter_and_not_case_insensitive() {
    // positive and negative terms combine as intersection and exclusion
    let mut tasks = collection(&[
        "email +WORK report",
        "email +work report @home",
        "water plants @home",
        "call boss +work",
    ]);
    let terms = vec!["+work".to_string(), "-@home".to_string()];
    tasks.filter_terms_regex(&terms).unwrap();
    assert_eq!(raws(&tasks), vec!["email +WORK report", "call boss +work"]);
}

#[test]
fn filter_alternation() {
    let mut tasks = collection(&["alpha one", "beta two", "gamma three"]);
    let terms = vec!["ALPHA|Gamma".to_string()];
    tasks.filter_terms_regex(&terms).unwrap();
    assert_eq!(raws(&tasks), vec!["alpha one", "gamma three"]);
}

#[test]
fn filter_no_terms_keeps_everything() {
    let mut tasks = collection(&["a", "b", "c"]);
    let terms: Vec<String> = Vec::new();
    tasks.filter_terms_regex(&terms).unwrap();
    assert_eq!(tasks.len(), 3);
}

#[test]
fn filter_terms_folds_case() {
    // the plain containment filter matches case-insensitively
    let mut tasks = collection(&["email +WORK", "email +work", "no match"]);
    let terms = vec!["+work".to_string()];
    tasks.filter_terms(&terms);
    assert_eq!(raws(&tasks), vec!["email +WORK", "email +work"]);
}

#[test]
fn filter_regex_term_matches_patterns() {
    // a term without a leading sigil is a regular expression
    let mut tasks = collection(&["work hard", "walk home", "rest"]);
    let terms = vec!["w.rk".to_string()];
    tasks.filter_terms_regex(&terms).unwrap();
    assert_eq!(raws(&tasks), vec!["work hard"]);
}

#[test]
fn filter_malformed_term_is_an_error() {
    let mut tasks = collection(&["keep me", "and me"]);
    let terms = vec!["(".to_string()];
    let r = tasks.filter_terms_regex(&terms);
    assert_eq!(r, Err(todors::errors::ErrorType::MalformedFilterExpression));
    // nothing was dropped on failure
    assert_eq!(tasks.len(), 2);
}

#[test]
fn remove_blanks_drops_whitespace_only_lines() {
    let mut tasks = collection(&["a", "   ", "\t", "b"]);
    tasks.remove_blanks();
    assert_eq!(raws(&tasks), vec!["a", "b"]);
}

#[test]
fn sort_by_priority_absent_last() {
    let mut tasks = collection(&[
        "no priority here",
        "(B) second",
        "also no priority",
        "(A) first",
    ]);
    tasks.sort(&[SortBy { field: SortByField::Priority, reverse: false }]);
    assert_eq!(
        raws(&tasks),
        vec!["(A) first", "(B) second", "no priority here", "also no priority"]
    );
}

#[test]
fn sort_is_stable_on_equal_keys() {
    let mut tasks = collection(&[
        "(A) zebra",
        "(A) apple",
        "(B) first b",
        "(A) middle",
        "(B) second b",
    ]);
    tasks.sort(&[SortBy { field: SortByField::Priority, reverse: false }]);
    // equal priorities keep their original relative order
    assert_eq!(
        raws(&tasks),
        vec!["(A) zebra", "(A) apple", "(A) middle", "(B) first b", "(B) second b"]
    );
}

#[test]
fn sort_chain_breaks_ties() {
    let mut tasks = collection(&["(A) bb", "(B) aa", "(A) aa"]);
    tasks.sort(&[
        SortBy { field: SortByField::Priority, reverse: false },
        SortBy { field: SortByField::Body, reverse: false },
    ]);
    assert_eq!(raws(&tasks), vec!["(A) aa", "(A) bb", "(B) aa"]);
}

#[test]
fn sort_reverse_flag() {
    let mut tasks = collection(&["(A) one", "(C) three", "(B) two"]);
    tasks.sort(&[SortBy { field: SortByField::Priority, reverse: true }]);
    assert_eq!(raws(&tasks), vec!["(C) three", "(B) two", "(A) one"]);
}

#[test]
fn sort_by_id_restores_file_order() {
    let mut tasks = collection(&["c", "a", "b"]);
    tasks.sort(&[SortBy { field: SortByField::Raw, reverse: false }]);
    assert_eq!(raws(&tasks), vec!["a", "b", "c"]);
    tasks.sort(&[SortBy { field: SortByField::Id, reverse: false }]);
    assert_eq!(raws(&tasks), vec!["c", "a", "b"]);
}

#[test]
fn sort_by_due_date_absent_first() {
    let mut tasks = collection(&[
        "late due:2024-06-01",
        "no date at all",
        "early due:2024-01-15",
    ]);
    tasks.sort(&[SortBy { field: SortByField::DueDate, reverse: false }]);
    assert_eq!(
        raws(&tasks),
        vec!["no date at all", "early due:2024-01-15", "late due:2024-06-01"]
    );
}

#[test]
fn remove_blanks_and_counts() {
    let mut tasks = collection(&["a", "", "b", ""]);
    assert_eq!(tasks.len(), 4);
    assert!(!tasks.is_empty());
    tasks.remove_blanks();
    assert_eq!(raws(&tasks), vec!["a", "b"]);
}

#[test]
fn remove_by_id_blanks_in_place() {
    let mut tasks = collection(&["one", "two", "three"]);
    tasks.remove_by_id(2);
    assert_eq!(tasks.len(), 3);
    assert_eq!(tasks.0[1].raw, "");
    assert_eq!(tasks.0[1].id, 2);
    assert_eq!(tasks.0[0].raw, "one");
    assert_eq!(tasks.0[2].raw, "three");
}

#[test]
fn retain_keeps_matching() {
    let mut tasks = collection(&["keep a", "drop b", "keep c"]);
    tasks.retain(|t| t.raw.starts_with("keep"));
    assert_eq!(raws(&tasks), vec!["keep a", "keep c"]);
}

#[test]
fn concat_appends_in_order() {
    let mut tasks = collection(&["a", "b"]);
    let done = collection(&["x", "y"]);
    tasks.concat(done);
    assert_eq!(raws(&tasks), vec!["a", "b", "x", "y"]);
}

#[test]
fn zero_ids_resets_numbering() {
    let mut tasks = collection(&["a", "b"]);
    tasks.zero_ids();
    assert_eq!(tasks.0[0].id, 0);
    assert_eq!(tasks.0[1].id, 0);
    assert_eq!(tasks.0[0].raw, "a");
}

#[test]
fn filter_negative_only() {
    let mut tasks = collection(&["stay here", "go @home now"]);
    let terms = vec!["-@home".to_string()];
    tasks.filter_terms_regex(&terms).unwrap();
    assert_eq!(raws(&tasks), vec!["stay here"]);
}

#[test]
fn filter_empty_alternative_matches_everything() {
    // "a||b" has an empty alternative, and the empty text occurs anywhere
    let mut tasks = collection(&["zzz", "a here"]);
    let terms = vec!["a||b".to_string()];
    tasks.filter_terms_regex(&terms).unwrap();
    assert_eq!(tasks.len(), 2);
}

#[test]
fn sort_by_first_project_absent_first() {
    let mut tasks = collection(&["two +beta", "none at all", "one +alpha"]);
    tasks.sort(&[SortBy { field: SortByField::Project, reverse: false }]);
    assert_eq!(raws(&tasks), vec!["none at all", "one +alpha", "two +beta"]);
}

#[test]
fn sort_by_completed_puts_open_first() {
    let mut tasks = collection(&["x done it", "still open"]);
    tasks.sort(&[SortBy { field: SortByField::Completed, reverse: false }]);
    assert_eq!(raws(&tasks), vec!["still open", "x done it"]);
}

#[test]
fn month_lengths_enforced() {
    let t = Task::new(1, "a due:2024-04-31");
    assert_eq!(t.parsed.due_date, None);
    let ok = Task::new(1, "a due:2024-04-30");
    assert!(ok.parsed.due_date.is_some());
}

#[test]
fn tasks_from_lines_numbers_from_one() {
    let lines = vec!["first".to_string(), "".to_string(), "third".to_string()];
    let tasks = todors::tasks::tasks_from_lines(&lines);
    assert_eq!(tasks.len(), 3);
    assert_eq!(tasks.0[0].id, 1);
    assert_eq!(tasks.0[2].id, 3);
    assert_eq!(tasks.0[2].raw, "third");
}
