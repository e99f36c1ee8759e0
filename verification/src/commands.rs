//! The five commands, from the bytes of the store to the update that the
//! caller carries out.
//!
//! A store is given as `Some` bytes, or as `None` where there is no file.

use vstd::prelude::*;
use crate::decimal::{parse_i64, parsed_i64};
use crate::duration::DURATION_PATTERN;
use crate::engine::{
    edit_task, find_task, fresh_task, has_id, new_task, next_id, next_task_id, outcome_of,
    patched, position_of, progressed, record_progress, remove_task, swap_removed, NewTask,
    NewTaskView, Outcome, TaskPatch, TaskPatchView,
};
use crate::error::{outcome, CliError, CliErrorView};
use crate::order::{in_urgency_order, listed, sort_by_urgency, urgency_ordered};
use crate::pattern::regex_captures;
use crate::progress::{amount_of, parse_progress, PERCENT_PATTERN};
use crate::record::encode_record;
use crate::store::{
    decode_records, delete_if_empty, encode_records, read_tasks, rewrite_of, save_tasks,
    StoreUpdate, StoreUpdateView,
};
use crate::task::{task_views, Task, TaskView};

verus! {

/// The bytes of a store, as a sequence.
pub open spec fn contents(store: Option<&[u8]>) -> Option<Seq<u8>> {
    match store {
        Some(bytes) => Some(bytes@),
        None => None,
    }
}

/// The tasks of the store at `path`, for a command that needs the store.
pub open spec fn loaded(store: Option<Seq<u8>>, path: Seq<char>) -> Result<
    Seq<TaskView>,
    CliErrorView,
> {
    match store {
        None => Err(CliErrorView::PathMissing(path)),
        Some(bytes) => match decode_records(bytes) {
            Ok(tasks) => Ok(tasks),
            Err(_) => Err(CliErrorView::CorruptFile),
        },
    }
}

/// The identifier that an argument spells.
pub open spec fn task_id_of(text: Seq<char>) -> Result<i64, CliErrorView> {
    match parsed_i64(text) {
        Some(id) => Ok(id),
        None => Err(CliErrorView::Parse("Invalid task ID"@)),
    }
}

/// Reads the store at `path` for a command that needs it.
pub fn load(store: Option<&[u8]>, path: &str) -> (r: Result<Vec<Task>, CliError>)
    ensures
        match r {
            Ok(tasks) => loaded(contents(store), path@) == Ok::<_, CliErrorView>(
                task_views(tasks@),
            ),
            Err(e) => loaded(contents(store), path@) == Err::<Seq<TaskView>, _>(e@),
        },
{
    match store {
        None => Err(CliError::PathMissing(path.to_owned())),
        Some(bytes) => read_tasks(bytes),
    }
}

/// Reads the identifier that an argument spells.
pub fn parse_task_id(text: &str) -> (r: Result<i64, CliError>)
    ensures
        outcome(r) == task_id_of(text@),
{
    match parse_i64(text) {
        Some(id) => Ok(id),
        None => Err(CliError::parse("Invalid task ID")),
    }
}

/// What `add` answers: the new task and the record to append. An absent store
/// counts as empty.
pub open spec fn addition(store: Option<Seq<u8>>, input: NewTaskView) -> Result<
    (TaskView, StoreUpdateView),
    CliErrorView,
> {
    let stored = match store {
        None => Ok(Seq::empty()),
        Some(bytes) => decode_records(bytes),
    };
    match stored {
        Err(_) => Err(CliErrorView::CorruptFile),
        Ok(tasks) => if next_id(tasks) > i64::MAX {
            Err(CliErrorView::Parse("Task ID out of range"@))
        } else {
            let task = fresh_task(next_id(tasks) as i64, input);
            Ok((task, StoreUpdateView::Append(encode_record(task))))
        },
    }
}

/// Adds a task to the store: under the next identifier, with no progress, and
/// behind the records that are there, which are not written again.
pub fn handle_add(store: Option<&[u8]>, input: NewTask) -> (r: Result<
    (Task, StoreUpdate),
    CliError,
>)
    ensures
        match r {
            Ok((task, update)) => addition(contents(store), input@) == Ok::<_, CliErrorView>(
                (task@, update@),
            ),
            Err(e) => addition(contents(store), input@) == Err::<(TaskView, StoreUpdateView), _>(
                e@,
            ),
        },
{
    let tasks: Vec<Task> = match store {
        None => Vec::new(),
        Some(bytes) => match read_tasks(bytes) {
            Ok(tasks) => tasks,
            Err(e) => return Err(e),
        },
    };
    proof {
        if store is None {
            assert(task_views(tasks@) =~= Seq::empty());
        }
    }
    let id = match next_task_id(&tasks) {
        Ok(id) => id,
        Err(e) => return Err(e),
    };
    let task = new_task(id, input);
    let record = task.serialize();
    Ok((task, StoreUpdate::Append(record)))
}

/// Lists the store: every task, the most urgent first.
pub fn handle_list(store: Option<&[u8]>, path: &str) -> (r: Result<Vec<Task>, CliError>)
    ensures
        match r {
            Ok(tasks) => {
                &&& loaded(contents(store), path@) matches Ok(stored)
                &&& task_views(tasks@) == listed(stored)
                &&& task_views(tasks@).to_multiset() == stored.to_multiset()
                &&& urgency_ordered(task_views(tasks@))
                &&& forall|now: i64| #[trigger] in_urgency_order(task_views(tasks@), now)
            },
            Err(e) => loaded(contents(store), path@) == Err::<Seq<TaskView>, _>(e@),
        },
{
    match load(store, path) {
        Ok(tasks) => Ok(sort_by_urgency(tasks)),
        Err(e) => Err(e),
    }
}

/// What removing the task with the identifier `id` from `tasks` answers: the
/// identifier and the update that leaves the other tasks, with the last one in
/// the place of the one removed.
pub open spec fn removal_of(tasks: Seq<TaskView>, id: i64) -> Result<
    (i64, StoreUpdateView),
    CliErrorView,
> {
    if has_id(tasks, id) {
        Ok((id, rewrite_of(swap_removed(tasks, position_of(tasks, id)))))
    } else {
        Err(CliErrorView::TaskNotFound(id))
    }
}

/// What `remove` answers.
pub open spec fn removal(store: Option<Seq<u8>>, path: Seq<char>, id_text: Seq<char>) -> Result<
    (i64, StoreUpdateView),
    CliErrorView,
> {
    match loaded(store, path) {
        Err(e) => Err(e),
        Ok(tasks) => match task_id_of(id_text) {
            Err(e) => Err(e),
            Ok(id) => removal_of(tasks, id),
        },
    }
}

/// Removes the task with the identifier that `id` spells.
pub fn handle_remove(store: Option<&[u8]>, path: &str, id: &str) -> (r: Result<
    (i64, StoreUpdate),
    CliError,
>)
    ensures
        match r {
            Ok((target, update)) => removal(contents(store), path@, id@) == Ok::<_, CliErrorView>(
                (target, update@),
            ),
            Err(e) => removal(contents(store), path@, id@) == Err::<(i64, StoreUpdateView), _>(
                e@,
            ),
        },
{
    let mut tasks = match load(store, path) {
        Ok(tasks) => tasks,
        Err(e) => return Err(e),
    };
    let target = match parse_task_id(id) {
        Ok(target) => target,
        Err(e) => return Err(e),
    };
    match remove_task(&mut tasks, target) {
        Ok(_) => Ok((target, delete_if_empty(tasks.as_slice()))),
        Err(e) => Err(e),
    }
}

/// What `progress` answers once the amount is known in seconds.
pub open spec fn progression(tasks: Seq<TaskView>, id: i64, delta: i64) -> Result<
    (Outcome, StoreUpdateView),
    CliErrorView,
> {
    if has_id(tasks, id) {
        Ok(
            (
                outcome_of(tasks[position_of(tasks, id)], delta),
                rewrite_of(progressed(tasks, position_of(tasks, id), delta)),
            ),
        )
    } else {
        Err(CliErrorView::TaskNotFound(id))
    }
}

/// Logs `delta` seconds on the task with the identifier `id` and says what
/// becomes of the store.
pub fn finish_progress(tasks: Vec<Task>, id: i64, delta: i64) -> (r: Result<
    (Outcome, StoreUpdate),
    CliError,
>)
    ensures
        match r {
            Ok((report, update)) => progression(task_views(tasks@), id, delta) == Ok::<
                _,
                CliErrorView,
            >((report, update@)),
            Err(e) => progression(task_views(tasks@), id, delta) == Err::<
                (Outcome, StoreUpdateView),
                _,
            >(e@),
        },
{
    let mut tasks = tasks;
    match record_progress(&mut tasks, id, delta) {
        Ok(report) => Ok((report, delete_if_empty(tasks.as_slice()))),
        Err(e) => Err(e),
    }
}

/// What `progress` answers, from the store and what the two patterns of an
/// amount made of the amount.
pub open spec fn progress_result(
    store: Option<Seq<u8>>,
    path: Seq<char>,
    id_text: Seq<char>,
    duration: Result<Option<Seq<Option<Seq<char>>>>, Seq<char>>,
    percent: Result<Option<Seq<Option<Seq<char>>>>, Seq<char>>,
) -> Result<(Outcome, StoreUpdateView), CliErrorView> {
    match loaded(store, path) {
        Err(e) => Err(e),
        Ok(tasks) => match task_id_of(id_text) {
            Err(e) => Err(e),
            Ok(id) => if !has_id(tasks, id) {
                Err(CliErrorView::TaskNotFound(id))
            } else {
                match amount_of(
                    duration,
                    percent,
                    tasks[position_of(tasks, id)].estimated_time,
                ) {
                    Err(e) => Err(e),
                    Ok(delta) => progression(tasks, id, delta),
                }
            },
        },
    }
}

/// Logs progress on the task with the identifier that `id` spells. The amount
/// is a span of time or a share of the task's estimated time.
///
/// The amount is held against the two patterns; [`finish_progress`] states what
/// follows once the seconds are known.
pub fn handle_progress(store: Option<&[u8]>, path: &str, id: &str, amount: &str) -> (r: Result<
    (Outcome, StoreUpdate),
    CliError,
>)
    ensures
        match r {
            Ok((report, update)) => progress_result(
                contents(store),
                path@,
                id@,
                regex_captures(DURATION_PATTERN@, amount@),
                regex_captures(PERCENT_PATTERN@, amount@),
            ) == Ok::<_, CliErrorView>((report, update@)),
            Err(e) => progress_result(
                contents(store),
                path@,
                id@,
                regex_captures(DURATION_PATTERN@, amount@),
                regex_captures(PERCENT_PATTERN@, amount@),
            ) == Err::<(Outcome, StoreUpdateView), _>(e@),
        },
{
    let tasks = match load(store, path) {
        Ok(tasks) => tasks,
        Err(e) => return Err(e),
    };
    let target = match parse_task_id(id) {
        Ok(target) => target,
        Err(e) => return Err(e),
    };
    let index = match find_task(&tasks, target) {
        Some(index) => index,
        None => return Err(CliError::TaskNotFound(target)),
    };
    let delta = match parse_progress(amount, &tasks[index]) {
        Ok(delta) => delta,
        Err(e) => return Err(e),
    };
    finish_progress(tasks, target, delta)
}

/// The task that `edit` is about, as it is stored.
pub open spec fn edit_subject(
    store: Option<Seq<u8>>,
    path: Seq<char>,
    id_text: Seq<char>,
) -> Result<TaskView, CliErrorView> {
    match loaded(store, path) {
        Err(e) => Err(e),
        Ok(tasks) => match task_id_of(id_text) {
            Err(e) => Err(e),
            Ok(id) => if has_id(tasks, id) {
                Ok(tasks[position_of(tasks, id)])
            } else {
                Err(CliErrorView::TaskNotFound(id))
            },
        },
    }
}

/// The task with the identifier that `id` spells, as it is stored: what the
/// user is shown before an edit.
pub fn edit_target(store: Option<&[u8]>, path: &str, id: &str) -> (r: Result<Task, CliError>)
    ensures
        match r {
            Ok(task) => edit_subject(contents(store), path@, id@) == Ok::<_, CliErrorView>(task@),
            Err(e) => edit_subject(contents(store), path@, id@) == Err::<TaskView, _>(e@),
        },
{
    let tasks = match load(store, path) {
        Ok(tasks) => tasks,
        Err(e) => return Err(e),
    };
    let target = match parse_task_id(id) {
        Ok(target) => target,
        Err(e) => return Err(e),
    };
    match find_task(&tasks, target) {
        Some(index) => Ok(tasks[index].clone()),
        None => Err(CliError::TaskNotFound(target)),
    }
}

/// `tasks` with the fields that `patch` gives in the first task with the
/// identifier `id`.
pub open spec fn edited(tasks: Seq<TaskView>, id: i64, patch: TaskPatchView) -> Seq<TaskView> {
    tasks.update(position_of(tasks, id), patched(tasks[position_of(tasks, id)], patch))
}

/// What editing the task with the identifier `id` in `tasks` answers: the task
/// as it then is, and the store written anew with that task in its old place.
pub open spec fn edition_of(tasks: Seq<TaskView>, id: i64, patch: TaskPatchView) -> Result<
    (TaskView, StoreUpdateView),
    CliErrorView,
> {
    if has_id(tasks, id) {
        Ok(
            (
                patched(tasks[position_of(tasks, id)], patch),
                StoreUpdateView::Overwrite(encode_records(edited(tasks, id, patch))),
            ),
        )
    } else {
        Err(CliErrorView::TaskNotFound(id))
    }
}

/// What `edit` answers.
pub open spec fn edition(
    store: Option<Seq<u8>>,
    path: Seq<char>,
    id_text: Seq<char>,
    patch: TaskPatchView,
) -> Result<(TaskView, StoreUpdateView), CliErrorView> {
    match loaded(store, path) {
        Err(e) => Err(e),
        Ok(tasks) => match task_id_of(id_text) {
            Err(e) => Err(e),
            Ok(id) => edition_of(tasks, id, patch),
        },
    }
}

/// Replaces fields of the task with the identifier that `id` spells.
pub fn handle_edit(store: Option<&[u8]>, path: &str, id: &str, patch: TaskPatch) -> (r: Result<
    (Task, StoreUpdate),
    CliError,
>)
    ensures
        match r {
            Ok((task, update)) => edition(contents(store), path@, id@, patch@) == Ok::<
                _,
                CliErrorView,
            >((task@, update@)),
            Err(e) => edition(contents(store), path@, id@, patch@) == Err::<
                (TaskView, StoreUpdateView),
                _,
            >(e@),
        },
{
    let mut tasks = match load(store, path) {
        Ok(tasks) => tasks,
        Err(e) => return Err(e),
    };
    let target = match parse_task_id(id) {
        Ok(target) => target,
        Err(e) => return Err(e),
    };
    match edit_task(&mut tasks, target, patch) {
        Ok(edited) => Ok((edited, save_tasks(tasks.as_slice(), true))),
        Err(e) => Err(e),
    }
}

} // verus!
