use cli_task_manager::decimal::decimal_string;
use cli_task_manager::ops::{add_task, toggle_task_completed};
use cli_task_manager::report::{
    added_message, edited_message, format_task, list_tasks, removed_message, search_report,
    status_text, toggled_message,
};
use cli_task_manager::search::{fuzzy_search, match_scores, search_subject, select_matches};
use cli_task_manager::task::Task;

fn task(id: u32, description: &str, completed: bool) -> Task {
    Task { id, description: description.to_string(), completed }
}

fn two_tasks() -> Vec<Task> {
    let mut tasks: Vec<Task> = Vec::new();
    add_task(&mut tasks, "Write documentation".to_string());
    add_task(&mut tasks, "Fix bug".to_string());
    tasks
}

fn ids(tasks: &[Task]) -> Vec<u32> {
    tasks.iter().map(|t| t.id).collect()
}

fn agree(a: char, b: char, exact: bool) -> bool {
    a == b || (!exact && a.to_ascii_lowercase() == b.to_ascii_lowercase())
}

fn occurs_in_order(query: &str, subject: &str) -> bool {
    let exact = query.chars().any(|c| c.is_ascii_uppercase());
    let mut wanted = query.chars().peekable();
    for c in subject.chars() {
        match wanted.peek() {
            Some(&q) => {
                if agree(c, q, exact) {
                    wanted.next();
                }
            }
            None => return true,
        }
    }
    wanted.peek().is_none()
}

#[test]
fn test_fuzzy_search() {
    let tasks = two_tasks();
    let by_text = fuzzy_search(&tasks, "doc");
    assert_eq!(by_text, vec![task(1, "Write documentation", false)]);
    let by_id = fuzzy_search(&tasks, "2");
    assert!(by_id.iter().any(|t| t.id == 2));
    assert_eq!(by_id, vec![task(2, "Fix bug", false)]);
}

#[test]
fn search_without_a_match_reports_so() {
    let tasks = two_tasks();
    let none = fuzzy_search(&tasks, "zqj");
    assert!(none.is_empty());
    assert_eq!(search_report(&none), vec!["No tasks matched the query.".to_string()]);
}

#[test]
fn search_matches_the_status_word() {
    let mut tasks = two_tasks();
    assert_eq!(ids(&fuzzy_search(&tasks, "Pending")), vec![1, 2]);
    assert_eq!(ids(&fuzzy_search(&tasks, "Completed")), Vec::<u32>::new());
    assert_eq!(toggle_task_completed(&mut tasks, 2), Ok(1));
    assert_eq!(ids(&fuzzy_search(&tasks, "Completed")), vec![2]);
    assert_eq!(ids(&fuzzy_search(&tasks, "Pending")), vec![1]);
}

#[test]
fn search_keeps_collection_order() {
    let tasks = vec![
        task(3, "buy bread", false),
        task(1, "bake bread", false),
        task(2, "walk", false),
        task(9, "bring beer", true),
    ];
    assert_eq!(ids(&fuzzy_search(&tasks, "bre")), vec![3, 1, 9]);
}

#[test]
fn empty_query_matches_every_task() {
    let tasks = two_tasks();
    assert_eq!(fuzzy_search(&tasks, ""), tasks);
    assert!(fuzzy_search(&Vec::new(), "").is_empty());
}

#[test]
fn search_case_is_smart() {
    let tasks = two_tasks();
    assert_eq!(ids(&fuzzy_search(&tasks, "write")), vec![1]);
    assert_eq!(ids(&fuzzy_search(&tasks, "Write")), vec![1]);
    assert_eq!(ids(&fuzzy_search(&tasks, "WRITE")), Vec::<u32>::new());
    assert_eq!(ids(&fuzzy_search(&tasks, "fb")), vec![2]);
    assert_eq!(ids(&fuzzy_search(&tasks, "fB")), Vec::<u32>::new());
}

#[test]
fn a_score_is_present_exactly_for_an_ordered_occurrence() {
    let tasks = vec![
        task(1, "Write documentation", false),
        task(2, "Fix bug", true),
        task(10, "", false),
        task(305, "Ship v2.0 to QA", true),
        task(4, "naïve café", false),
    ];
    let queries = [
        "", "doc", "2", "1", "0", "fix", "FIX", "Fix", "gub", "bug", "pend", "comp", "qa", "QA",
        "Qa", "v2", "30", "503", "ship to", " ", "  ", "   ", "é", "cafe", "naïve", "P", "C",
        "wdp", "dw", "zzz", "x", "W", "w",
    ];
    for query in queries {
        let scores = match_scores(&tasks, query);
        assert_eq!(scores.len(), tasks.len());
        for (t, score) in tasks.iter().zip(scores.iter()) {
            let subject = search_subject(t);
            assert_eq!(
                score.is_some(),
                occurs_in_order(query, &subject),
                "query {:?} against {:?}",
                query,
                subject
            );
        }
    }
}

#[test]
fn select_matches_keeps_the_scored_tasks() {
    let tasks = vec![task(1, "a", false), task(2, "b", true), task(3, "c", false)];
    let picked = select_matches(&tasks, &vec![Some(0), None, Some(-7)]);
    assert_eq!(picked, vec![task(1, "a", false), task(3, "c", false)]);
    assert!(select_matches(&tasks, &vec![None, None, None]).is_empty());
    assert_eq!(select_matches(&tasks, &vec![Some(1), Some(2), Some(3)]), tasks);
}

#[test]
fn search_subject_joins_id_text_and_status() {
    assert_eq!(search_subject(&task(1, "Write documentation", false)), "1 Write documentation Pending");
    assert_eq!(search_subject(&task(42, "", true)), "42  Completed");
}

#[test]
fn list_on_no_tasks_reports_none() {
    assert_eq!(list_tasks(&Vec::new()), vec!["No tasks available.".to_string()]);
}

#[test]
fn list_shows_heading_and_one_line_per_task() {
    let mut tasks = two_tasks();
    assert_eq!(toggle_task_completed(&mut tasks, 2), Ok(1));
    assert_eq!(
        list_tasks(&tasks),
        vec![
            "Tasks:".to_string(),
            "1. Write documentation - Pending".to_string(),
            "2. Fix bug - Completed".to_string(),
        ]
    );
}

#[test]
fn search_report_lists_matches_without_heading() {
    let tasks = two_tasks();
    assert_eq!(
        search_report(&fuzzy_search(&tasks, "doc")),
        vec!["1. Write documentation - Pending".to_string()]
    );
}

#[test]
fn format_task_line() {
    assert_eq!(format_task(&task(12, "Fix bug", true)), "12. Fix bug - Completed");
    assert_eq!(format_task(&task(0, "", false)), "0.  - Pending");
}

#[test]
fn status_words() {
    assert_eq!(status_text(true), "Completed");
    assert_eq!(status_text(false), "Pending");
}

#[test]
fn confirmations() {
    assert_eq!(added_message(), "Task added.");
    assert_eq!(removed_message(), "Task removed.");
    assert_eq!(toggled_message(&task(1, "Task 1", true)), "Task 'Task 1' is now Completed.");
    assert_eq!(toggled_message(&task(1, "Task 1", false)), "Task 'Task 1' is now Pending.");
    assert_eq!(edited_message(17), "Task with ID 17 was updated.");
}

#[test]
fn decimal_numerals() {
    assert_eq!(decimal_string(0), "0");
    assert_eq!(decimal_string(7), "7");
    assert_eq!(decimal_string(10), "10");
    assert_eq!(decimal_string(907), "907");
    assert_eq!(decimal_string(1234567890), "1234567890");
    assert_eq!(decimal_string(u32::MAX), "4294967295");
}
