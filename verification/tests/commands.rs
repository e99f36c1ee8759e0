use todo_cli::commands::{
    edit_target, handle_add, handle_edit, handle_list, handle_progress, handle_remove,
};
use todo_cli::engine::{NewTask, Outcome, TaskPatch};
use todo_cli::error::CliError;
use todo_cli::store::{read_tasks, StoreUpdate};
use todo_cli::task::Task;

const PATH: &str = "./task_list";

fn milk() -> NewTask {
    NewTask {
        deadline: 1_893_499_200,
        estimated_time: 1800,
        name: "buy milk".to_string(),
        description: "2%".to_string(),
    }
}

fn plain(deadline: i64) -> NewTask {
    NewTask { deadline, estimated_time: 60, name: "n".to_string(), description: "d".to_string() }
}

fn add(store: Option<Vec<u8>>, input: NewTask) -> (Task, Option<Vec<u8>>) {
    let (task, update) = handle_add(store.as_deref(), input).unwrap();
    (task, update.apply(store))
}

fn store_with_milk() -> Option<Vec<u8>> {
    add(None, milk()).1
}

fn ids(store: &Option<Vec<u8>>) -> Vec<i64> {
    read_tasks(store.as_ref().unwrap()).unwrap().iter().map(|t| t.id()).collect()
}

#[test]
fn add_then_list_shows_one_task_with_id_zero() {
    let (task, store) = add(None, milk());
    assert_eq!(task.id(), 0);
    assert_eq!(task.progress, 0);
    let listed = handle_list(store.as_deref(), PATH).unwrap();
    assert_eq!(listed.len(), 1);
    assert_eq!(listed[0].id(), 0);
    assert_eq!(listed[0].name, "buy milk");
    assert_eq!(listed[0].description, "2%");
    assert_eq!(listed[0].deadline, 1_893_499_200);
    assert_eq!(listed[0].estimated_time, 1800);
}

#[test]
fn add_appends_without_rewriting() {
    let store = store_with_milk();
    let (task, update) = handle_add(store.as_deref(), plain(5)).unwrap();
    match &update {
        StoreUpdate::Append(bytes) => assert_eq!(bytes, &task.serialize()),
        other => panic!("unexpected update {:?}", other),
    }
}

#[test]
fn partial_progress_is_kept() {
    let store = store_with_milk();
    let (report, update) = handle_progress(store.as_deref(), PATH, "0", "15m").unwrap();
    assert_eq!(report, Outcome::Updated { progress: 900, estimated_time: 1800 });
    let store = update.apply(store);
    let tasks = read_tasks(store.as_ref().unwrap()).unwrap();
    assert_eq!(tasks.len(), 1);
    assert_eq!(tasks[0].id(), 0);
    assert_eq!(tasks[0].progress, 900);
}

#[test]
fn completing_progress_deletes_the_file() {
    let store = store_with_milk();
    let (_, update) = handle_progress(store.as_deref(), PATH, "0", "15m").unwrap();
    let store = update.apply(store);
    let (report, update) = handle_progress(store.as_deref(), PATH, "0", "50%").unwrap();
    assert_eq!(report, Outcome::Completed);
    assert!(matches!(update, StoreUpdate::Delete));
    assert_eq!(update.apply(store), None);
}

#[test]
fn removing_the_last_task_deletes_the_file() {
    let store = store_with_milk();
    let (id, update) = handle_remove(store.as_deref(), PATH, "0").unwrap();
    assert_eq!(id, 0);
    assert!(matches!(update, StoreUpdate::Delete));
    assert_eq!(update.apply(store), None);
}

#[test]
fn edit_with_nothing_to_replace_keeps_the_bytes() {
    let store = store_with_milk();
    let before = edit_target(store.as_deref(), PATH, "0").unwrap();
    let patch = TaskPatch { deadline: None, estimated_time: None, name: None, description: None };
    let (task, update) = handle_edit(store.as_deref(), PATH, "0", patch).unwrap();
    assert_eq!(task.serialize(), before.serialize());
    assert_eq!(update.apply(store.clone()), store);
}

#[test]
fn edit_replaces_what_is_given() {
    let store = add(store_with_milk(), plain(9)).1;
    let patch = TaskPatch {
        deadline: Some(77),
        estimated_time: None,
        name: Some("oat milk".to_string()),
        description: None,
    };
    let (task, update) = handle_edit(store.as_deref(), PATH, "0", patch).unwrap();
    assert_eq!(task.id(), 0);
    assert_eq!(task.deadline, 77);
    assert_eq!(task.estimated_time, 1800);
    assert_eq!(task.name, "oat milk");
    assert_eq!(task.description, "2%");
    let store = update.apply(store);
    let tasks = read_tasks(store.as_ref().unwrap()).unwrap();
    assert_eq!(tasks.len(), 2);
    assert_eq!(tasks[0].name, "oat milk");
    assert_eq!(tasks[1].id(), 1);
}

#[test]
fn list_orders_by_deadline_then_id() {
    let now = 1_000_000;
    let store = add(None, plain(now + 10)).1;
    let store = add(store, plain(now + 5)).1;
    let store = add(store, plain(now + 5)).1;
    assert_eq!(ids(&store), vec![0, 1, 2]);
    let listed: Vec<i64> =
        handle_list(store.as_deref(), PATH).unwrap().iter().map(|t| t.id()).collect();
    assert_eq!(listed, vec![1, 2, 0]);
}

#[test]
fn ids_count_up_from_zero() {
    let mut store = None;
    for expected in 0..5 {
        let (task, next) = add(store, plain(expected));
        assert_eq!(task.id(), expected);
        store = next;
    }
    assert_eq!(ids(&store), vec![0, 1, 2, 3, 4]);
}

#[test]
fn next_id_follows_the_greatest_that_is_left() {
    let store = add(add(add(None, plain(1)).1, plain(2)).1, plain(3)).1;
    let (_, update) = handle_remove(store.as_deref(), PATH, "1").unwrap();
    let store = update.apply(store);
    assert_eq!(ids(&store), vec![0, 2]);
    let (task, store) = add(store, plain(4));
    assert_eq!(task.id(), 3);
    assert_eq!(ids(&store), vec![0, 2, 3]);
    let (_, update) = handle_remove(store.as_deref(), PATH, "3").unwrap();
    let store = update.apply(store);
    let (task, store) = add(store, plain(5));
    assert_eq!(task.id(), 3);
    assert_eq!(ids(&store), vec![0, 2, 3]);
}

#[test]
fn missing_store_is_reported_except_by_add() {
    assert!(matches!(handle_list(None, PATH), Err(CliError::PathMissing(p)) if p == PATH));
    assert!(matches!(handle_remove(None, PATH, "0"), Err(CliError::PathMissing(_))));
    assert!(matches!(handle_progress(None, PATH, "0", "1s"), Err(CliError::PathMissing(_))));
    assert!(matches!(edit_target(None, PATH, "0"), Err(CliError::PathMissing(_))));
    assert!(handle_add(None, milk()).is_ok());
}

#[test]
fn corrupt_store_stops_every_command() {
    let mut bytes = store_with_milk().unwrap();
    bytes.pop();
    let store = Some(bytes.as_slice());
    assert!(matches!(handle_list(store, PATH), Err(CliError::CorruptFile)));
    assert!(matches!(handle_remove(store, PATH, "0"), Err(CliError::CorruptFile)));
    assert!(matches!(handle_progress(store, PATH, "0", "1s"), Err(CliError::CorruptFile)));
    assert!(matches!(handle_add(store, milk()), Err(CliError::CorruptFile)));
}

#[test]
fn unknown_and_unreadable_ids() {
    let store = store_with_milk();
    assert!(matches!(handle_remove(store.as_deref(), PATH, "4"), Err(CliError::TaskNotFound(4))));
    assert!(matches!(
        handle_progress(store.as_deref(), PATH, "4", "1s"),
        Err(CliError::TaskNotFound(4))
    ));
    assert!(matches!(
        handle_remove(store.as_deref(), PATH, "zero"),
        Err(CliError::Parse(m)) if m == "Invalid task ID"
    ));
}

#[test]
fn amounts_that_are_no_amounts() {
    let store = store_with_milk();
    assert!(matches!(
        handle_progress(store.as_deref(), PATH, "0", "soon"),
        Err(CliError::InvalidInput(m)) if m == "Invalid progress format"
    ));
    assert!(matches!(
        handle_progress(store.as_deref(), PATH, "0", "99999999999999999999h"),
        Err(CliError::Parse(m)) if m == "Invalid hours"
    ));
}

#[test]
fn ids_stay_unique_over_adds_and_removes() {
    let mut store = None;
    let steps: [Option<&str>; 12] = [
        None,
        None,
        None,
        Some("1"),
        None,
        Some("3"),
        Some("0"),
        None,
        None,
        Some("9"),
        Some("2"),
        None,
    ];
    for step in steps {
        match step {
            None => store = add(store, plain(1)).1,
            Some(id) => {
                if let Ok((_, update)) = handle_remove(store.as_deref(), PATH, id) {
                    store = update.apply(store);
                }
            },
        }
        if let Some(bytes) = &store {
            let mut seen: Vec<i64> = read_tasks(bytes).unwrap().iter().map(|t| t.id()).collect();
            let count = seen.len();
            seen.sort();
            seen.dedup();
            assert_eq!(seen.len(), count);
        }
    }
    assert_eq!(ids(&store), vec![4, 3, 5]);
}

#[test]
fn completed_task_is_gone_and_the_others_stay_in_order() {
    let store = add(add(add(None, plain(1)).1, plain(2)).1, plain(3)).1;
    let (report, update) = handle_progress(store.as_deref(), PATH, "0", "100%").unwrap();
    assert_eq!(report, Outcome::Completed);
    let store = update.apply(store);
    assert_eq!(ids(&store), vec![1, 2]);
    assert!(matches!(
        handle_progress(store.as_deref(), PATH, "0", "1s"),
        Err(CliError::TaskNotFound(0))
    ));
}

#[test]
fn failed_commands_answer_with_no_update() {
    let store = store_with_milk();
    assert!(handle_remove(store.as_deref(), PATH, "7").is_err());
    assert!(handle_progress(store.as_deref(), PATH, "0", "x").is_err());
    let patch = TaskPatch { deadline: None, estimated_time: None, name: None, description: None };
    assert!(matches!(
        handle_edit(store.as_deref(), PATH, "7", patch),
        Err(CliError::TaskNotFound(7))
    ));
    assert_eq!(ids(&store), vec![0]);
}
