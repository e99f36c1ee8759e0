use chrono::{Local, NaiveDate, TimeZone};
use todo_cli::commands::{
    edit_target, handle_add, handle_edit, handle_list, handle_progress, handle_remove,
};
use todo_cli::duration::DURATION_PATTERN;
use todo_cli::engine::{NewTask, Outcome, TaskPatch};
use todo_cli::prompts::{
    query, revise_due, revise_estimated_time, revise_text, validate_description, validate_due,
    validate_estimated_time, validate_name, DUE_PATTERN, OPTIONAL_DUE_PATTERN, TEXT_PATTERN,
};
use todo_cli::store::{read_tasks, StoreUpdate};

const PATH: &str = "./task_list";

fn answer(pattern: &str, line: &str) -> Vec<Option<String>> {
    query(pattern, line).unwrap().unwrap()
}

fn noon_2030() -> i64 {
    let naive = NaiveDate::from_ymd_opt(2030, 1, 1).unwrap().and_hms_opt(12, 0, 0).unwrap();
    Local.from_local_datetime(&naive).unwrap().timestamp()
}

fn asked(due: &str, estimate: &str, name: &str, description: &str) -> NewTask {
    NewTask {
        deadline: validate_due(&answer(DUE_PATTERN, due)).unwrap(),
        estimated_time: validate_estimated_time(&answer(DURATION_PATTERN, estimate)).unwrap(),
        name: validate_name(&answer(TEXT_PATTERN, name)).unwrap(),
        description: validate_description(&answer(TEXT_PATTERN, description)).unwrap(),
    }
}

fn fresh_store_with_milk() -> Option<Vec<u8>> {
    let input = asked("2030-01-01 12:00:00\n", "30m\n", "buy milk\n", "2%\n");
    let (_, update) = handle_add(None, input).unwrap();
    update.apply(None)
}

#[test]
fn scenario_add_then_list() {
    colored::control::set_override(false);
    let store = fresh_store_with_milk();
    let listed = handle_list(store.as_deref(), PATH).unwrap();
    assert_eq!(listed.len(), 1);
    let task = &listed[0];
    assert_eq!(task.id(), 0);
    assert_eq!(task.progress, 0);
    assert_eq!(task.deadline, noon_2030());
    assert_eq!(task.estimated_time, 1800);
    assert_eq!(task.name, "buy milk");
    assert_eq!(task.description, "2%");
    let card = task.to_string();
    assert!(card.contains("buy milk"));
    assert!(card.contains("2030-01-01 12:00:00"));
    assert!(card.lines().any(|line| line.starts_with("┣━╾╌Id:") && line.contains("·  0")));
}

#[test]
fn scenario_partial_progress() {
    let store = fresh_store_with_milk();
    let (report, update) = handle_progress(store.as_deref(), PATH, "0", "15m").unwrap();
    match report {
        Outcome::Updated { progress, estimated_time } => {
            let percent = progress as f64 / estimated_time as f64 * 100.0;
            assert_eq!(format!("{:.1}", percent), "50.0");
        },
        Outcome::Completed => panic!("completed too early"),
    }
    let store = update.apply(store);
    let tasks = read_tasks(store.as_ref().unwrap()).unwrap();
    assert_eq!(tasks.len(), 1);
    assert_eq!(tasks[0].id(), 0);
    assert_eq!(tasks[0].progress, 900);
}

#[test]
fn scenario_completing_progress() {
    let store = fresh_store_with_milk();
    let (_, update) = handle_progress(store.as_deref(), PATH, "0", "15m").unwrap();
    let store = update.apply(store);
    let (report, update) = handle_progress(store.as_deref(), PATH, "0", "50%").unwrap();
    assert_eq!(report, Outcome::Completed);
    assert!(matches!(update, StoreUpdate::Delete));
    assert!(update.apply(store).is_none());
}

#[test]
fn scenario_remove_last() {
    let store = fresh_store_with_milk();
    let (_, update) = handle_remove(store.as_deref(), PATH, "0").unwrap();
    assert!(matches!(update, StoreUpdate::Delete));
    assert!(update.apply(store).is_none());
}

#[test]
fn scenario_edit_keeps_everything() {
    let store = fresh_store_with_milk();
    let before = edit_target(store.as_deref(), PATH, "0").unwrap();
    let patch = TaskPatch {
        deadline: revise_due(&answer(OPTIONAL_DUE_PATTERN, "\n")).unwrap(),
        estimated_time: revise_estimated_time(&answer(DURATION_PATTERN, "\n")).unwrap(),
        name: revise_text(&answer(TEXT_PATTERN, "\n")),
        description: revise_text(&answer(TEXT_PATTERN, "\n")),
    };
    let (after, update) = handle_edit(store.as_deref(), PATH, "0", patch).unwrap();
    assert_eq!(after.serialize(), before.serialize());
    assert_eq!(update.apply(store.clone()), store);
}

#[test]
fn scenario_sort() {
    let now = Local::now().timestamp();
    let mut store = None;
    for deadline in [now + 10, now + 5, now + 5] {
        let input = NewTask {
            deadline,
            estimated_time: 60,
            name: "n".to_string(),
            description: "d".to_string(),
        };
        let (_, update) = handle_add(store.as_deref(), input).unwrap();
        store = update.apply(store);
    }
    let stored: Vec<i64> =
        read_tasks(store.as_ref().unwrap()).unwrap().iter().map(|t| t.id()).collect();
    assert_eq!(stored, vec![0, 1, 2]);
    let listed: Vec<i64> =
        handle_list(store.as_deref(), PATH).unwrap().iter().map(|t| t.id()).collect();
    assert_eq!(listed, vec![1, 2, 0]);
}
