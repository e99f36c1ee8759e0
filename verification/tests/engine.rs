use todo_cli::engine::{
    add_task, edit_task, find_task, next_task_id, record_progress, remove_task,
    NewTask, Outcome, TaskPatch,
};
use todo_cli::error::CliError;
use todo_cli::order::sort_by_urgency;
use todo_cli::task::Task;

fn with_ids(ids: &[i64]) -> Vec<Task> {
    ids.iter().map(|id| Task::with_details(*id, 0, 0, 100, "n".into(), "d".into())).collect()
}

fn ids(tasks: &[Task]) -> Vec<i64> {
    tasks.iter().map(|t| t.id()).collect()
}

fn input() -> NewTask {
    NewTask { deadline: 5, estimated_time: 6, name: "a".into(), description: "b".into() }
}

#[test]
fn next_id_is_one_more_than_the_greatest() {
    assert_eq!(next_task_id(&with_ids(&[])).unwrap(), 0);
    assert_eq!(next_task_id(&with_ids(&[0, 5, 2])).unwrap(), 6);
    assert_eq!(next_task_id(&with_ids(&[-7])).unwrap(), -6);
    assert_eq!(next_task_id(&with_ids(&[-1])).unwrap(), 0);
    assert!(matches!(
        next_task_id(&with_ids(&[3, i64::MAX])),
        Err(CliError::Parse(m)) if m == "Task ID out of range"
    ));
}

#[test]
fn add_puts_the_task_last() {
    let mut tasks = with_ids(&[4, 1]);
    assert_eq!(add_task(&mut tasks, input()).unwrap(), 5);
    assert_eq!(ids(&tasks), vec![4, 1, 5]);
    let added = &tasks[2];
    assert_eq!((added.progress, added.deadline, added.estimated_time), (0, 5, 6));
    assert_eq!(added.name, "a");
    assert_eq!(added.description, "b");
}

#[test]
fn find_gives_the_first_place() {
    let tasks = with_ids(&[3, 8, 3]);
    assert_eq!(find_task(&tasks, 3), Some(0));
    assert_eq!(find_task(&tasks, 8), Some(1));
    assert_eq!(find_task(&tasks, 9), None);
}

#[test]
fn remove_moves_the_last_task_into_the_gap() {
    let mut tasks = with_ids(&[0, 1, 2, 3]);
    assert_eq!(remove_task(&mut tasks, 1).unwrap().id(), 1);
    assert_eq!(ids(&tasks), vec![0, 3, 2]);
    assert!(matches!(remove_task(&mut tasks, 1), Err(CliError::TaskNotFound(1))));
    assert_eq!(ids(&tasks), vec![0, 3, 2]);
}

#[test]
fn progress_below_the_estimate_updates() {
    let mut tasks = with_ids(&[0, 1, 2]);
    assert_eq!(
        record_progress(&mut tasks, 1, 99).unwrap(),
        Outcome::Updated { progress: 99, estimated_time: 100 }
    );
    assert_eq!(ids(&tasks), vec![0, 1, 2]);
    assert_eq!(tasks[1].progress, 99);
}

#[test]
fn progress_that_reaches_the_estimate_retires_in_place() {
    let mut tasks = with_ids(&[0, 1, 2]);
    assert_eq!(record_progress(&mut tasks, 0, 100).unwrap(), Outcome::Completed);
    assert_eq!(ids(&tasks), vec![1, 2]);
    assert_eq!(record_progress(&mut tasks, 2, i64::MAX).unwrap(), Outcome::Completed);
    assert_eq!(ids(&tasks), vec![1]);
}

#[test]
fn progress_may_go_back_and_stays_in_range() {
    let mut tasks = with_ids(&[0]);
    assert_eq!(
        record_progress(&mut tasks, 0, -5).unwrap(),
        Outcome::Updated { progress: -5, estimated_time: 100 }
    );
    assert_eq!(
        record_progress(&mut tasks, 0, i64::MIN).unwrap(),
        Outcome::Updated { progress: i64::MIN, estimated_time: 100 }
    );
}

#[test]
fn zero_estimate_completes_at_once() {
    let mut tasks = vec![Task::with_details(0, 0, 0, 0, "n".into(), "d".into())];
    assert_eq!(record_progress(&mut tasks, 0, 0).unwrap(), Outcome::Completed);
    assert!(tasks.is_empty());
}

#[test]
fn edit_keeps_id_and_progress() {
    let mut tasks = vec![Task::with_details(4, 30, 1, 100, "n".into(), "d".into())];
    let patch = TaskPatch {
        deadline: Some(9),
        estimated_time: Some(10),
        name: Some("x".into()),
        description: Some("y".into()),
    };
    let edited = edit_task(&mut tasks, 4, patch).unwrap();
    assert_eq!((edited.id(), edited.progress, edited.deadline, edited.estimated_time), (4, 30, 9, 10));
    assert_eq!(edited.name, "x");
    assert_eq!(edited.description, "y");
    assert_eq!(tasks[0].serialize(), edited.serialize());
    let none = TaskPatch { deadline: None, estimated_time: None, name: None, description: None };
    assert!(matches!(edit_task(&mut tasks, 5, none), Err(CliError::TaskNotFound(5))));
}

#[test]
fn sort_puts_the_most_overdue_first() {
    let tasks = vec![
        Task::with_details(0, 0, 50, 1, "n".into(), "d".into()),
        Task::with_details(1, 0, -20, 1, "n".into(), "d".into()),
        Task::with_details(2, 0, 50, 1, "n".into(), "d".into()),
        Task::with_details(3, 0, i64::MIN, 1, "n".into(), "d".into()),
        Task::with_details(4, 0, i64::MAX, 1, "n".into(), "d".into()),
    ];
    assert_eq!(ids(&sort_by_urgency(tasks)), vec![3, 1, 0, 2, 4]);
}
