//! The rules of a task list: identifiers, removal, progress, edits and order.

use vstd::prelude::*;
use crate::error::{outcome, CliError, CliErrorView};
use crate::task::{clamp, clamp_i64, task_views, Task, TaskView};

verus! {

/// What the user states of a task to be added.
#[derive(Debug)]
pub struct NewTask {
    pub deadline: i64,
    pub estimated_time: i64,
    pub name: String,
    pub description: String,
}

/// A [`NewTask`] with its texts as character sequences.
pub struct NewTaskView {
    pub deadline: i64,
    pub estimated_time: i64,
    pub name: Seq<char>,
    pub description: Seq<char>,
}

impl View for NewTask {
    type V = NewTaskView;

    open spec fn view(&self) -> NewTaskView {
        NewTaskView {
            deadline: self.deadline,
            estimated_time: self.estimated_time,
            name: self.name@,
            description: self.description@,
        }
    }
}

/// Whether some task of `tasks` has the identifier `id`.
pub open spec fn has_id(tasks: Seq<TaskView>, id: i64) -> bool {
    exists|i: int| 0 <= i < tasks.len() && (#[trigger] tasks[i]).id == id
}

/// Whether `i` is the place of the first task with the identifier `id`.
pub open spec fn is_position(tasks: Seq<TaskView>, id: i64, i: int) -> bool {
    &&& 0 <= i < tasks.len()
    &&& tasks[i].id == id
    &&& forall|j: int| 0 <= j < i ==> (#[trigger] tasks[j]).id != id
}

/// The place of the first task with the identifier `id`, where there is one.
pub open spec fn position_of(tasks: Seq<TaskView>, id: i64) -> int {
    choose|i: int| is_position(tasks, id, i)
}

/// Whether no two tasks of `tasks` share an identifier.
pub open spec fn distinct_ids(tasks: Seq<TaskView>) -> bool {
    forall|i: int, j: int|
        0 <= i < j < tasks.len() ==> (#[trigger] tasks[i]).id != (#[trigger] tasks[j]).id
}

/// The greatest identifier in `tasks`, or -1 where there is no task.
pub open spec fn max_id(tasks: Seq<TaskView>) -> int
    decreases tasks.len(),
{
    if tasks.len() == 0 {
        -1
    } else if tasks.len() == 1 {
        tasks[0].id as int
    } else if max_id(tasks.drop_last()) >= tasks.last().id {
        max_id(tasks.drop_last())
    } else {
        tasks.last().id as int
    }
}

/// The identifier of the next task to be added.
pub open spec fn next_id(tasks: Seq<TaskView>) -> int {
    max_id(tasks) + 1
}

/// The task that `input` becomes under the identifier `id`: nothing done yet.
pub open spec fn fresh_task(id: i64, input: NewTaskView) -> TaskView {
    TaskView {
        id,
        progress: 0,
        deadline: input.deadline,
        estimated_time: input.estimated_time,
        name: input.name,
        description: input.description,
    }
}

/// `tasks` without the task at `i`: the last task takes its place.
pub open spec fn swap_removed(tasks: Seq<TaskView>, i: int) -> Seq<TaskView> {
    tasks.update(i, tasks.last()).drop_last()
}

/// The place of the first task with an identifier is unique, and there is one
/// exactly when some task has the identifier.
pub proof fn lemma_position(tasks: Seq<TaskView>, id: i64)
    ensures
        has_id(tasks, id) <==> is_position(tasks, id, position_of(tasks, id)),
        forall|i: int| is_position(tasks, id, i) ==> i == position_of(tasks, id),
{
    if has_id(tasks, id) {
        let k = choose|k: int| 0 <= k < tasks.len() && (#[trigger] tasks[k]).id == id;
        lemma_first_position(tasks, id, k);
    }
    assert forall|i: int| is_position(tasks, id, i) implies i == position_of(tasks, id) by {
        let p = position_of(tasks, id);
        assert(is_position(tasks, id, p));
        if i < p {
            assert(tasks[i].id != id);
        } else if p < i {
            assert(tasks[p].id != id);
        }
    }
}

/// Before a task with an identifier stands a first one.
proof fn lemma_first_position(tasks: Seq<TaskView>, id: i64, k: int)
    requires
        0 <= k < tasks.len(),
        tasks[k].id == id,
    ensures
        exists|i: int| is_position(tasks, id, i),
    decreases k,
{
    if exists|j: int| 0 <= j < k && (#[trigger] tasks[j]).id == id {
        let j = choose|j: int| 0 <= j < k && (#[trigger] tasks[j]).id == id;
        lemma_first_position(tasks, id, j);
    } else {
        assert(is_position(tasks, id, k));
    }
}

/// The greatest identifier is that of some task, and no task has a greater one.
pub proof fn lemma_max_id(tasks: Seq<TaskView>)
    ensures
        forall|i: int| 0 <= i < tasks.len() ==> (#[trigger] tasks[i]).id <= max_id(tasks),
        tasks.len() > 0 ==> has_id(tasks, max_id(tasks) as i64),
        tasks.len() > 0 ==> i64::MIN <= max_id(tasks) <= i64::MAX,
        tasks.len() == 0 ==> max_id(tasks) == -1,
    decreases tasks.len(),
{
    if tasks.len() > 1 {
        let front = tasks.drop_last();
        lemma_max_id(front);
        assert forall|i: int| 0 <= i < tasks.len() implies (#[trigger] tasks[i]).id <= max_id(
            tasks,
        ) by {
            if i < tasks.len() - 1 {
                assert(front[i] == tasks[i]);
            }
        }
        if max_id(front) >= tasks.last().id {
            let k = choose|k: int|
                0 <= k < front.len() && (#[trigger] front[k]).id == max_id(front);
            assert(tasks[k].id == max_id(tasks));
        } else {
            assert(tasks[tasks.len() - 1].id == max_id(tasks));
        }
    } else if tasks.len() == 1 {
        assert(tasks[0].id == max_id(tasks));
    }
}

/// The place of the first task with the identifier `id`.
pub fn find_task(tasks: &Vec<Task>, id: i64) -> (place: Option<usize>)
    ensures
        match place {
            Some(i) => is_position(task_views(tasks@), id, i as int),
            None => !has_id(task_views(tasks@), id),
        },
        place is Some <==> has_id(task_views(tasks@), id),
        place matches Some(i) ==> i == position_of(task_views(tasks@), id),
{
    let ghost views = task_views(tasks@);
    let mut i: usize = 0;
    while i < tasks.len()
        invariant
            i <= tasks.len(),
            views == task_views(tasks@),
            forall|j: int| 0 <= j < i ==> (#[trigger] views[j]).id != id,
        decreases tasks.len() - i,
    {
        if tasks[i].id == id {
            proof {
                assert(views[i as int].id == id);
                assert(is_position(views, id, i as int));
                lemma_position(views, id);
            }
            return Some(i);
        }
        i += 1;
    }
    None
}

/// The identifier for the next task: one more than the greatest in use, 0 for
/// the first; none where the greatest in use is the greatest there is.
pub fn next_task_id(tasks: &Vec<Task>) -> (r: Result<i64, CliError>)
    ensures
        outcome(r) == if next_id(task_views(tasks@)) <= i64::MAX {
            Ok::<i64, CliErrorView>(next_id(task_views(tasks@)) as i64)
        } else {
            Err::<i64, _>(CliErrorView::Parse("Task ID out of range"@))
        },
{
    let ghost views = task_views(tasks@);
    let mut greatest: i64 = -1;
    let mut i: usize = 0;
    assert(views.take(0) =~= Seq::empty());
    while i < tasks.len()
        invariant
            i <= tasks.len(),
            views == task_views(tasks@),
            greatest == max_id(views.take(i as int)),
        decreases tasks.len() - i,
    {
        proof {
            let seen = views.take(i + 1);
            assert(seen.drop_last() =~= views.take(i as int));
            assert(seen.last() == views[i as int]);
            lemma_max_id(views.take(i as int));
        }
        if i == 0 || tasks[i].id > greatest {
            greatest = tasks[i].id;
        }
        i += 1;
    }
    assert(views.take(i as int) =~= views);
    if greatest == i64::MAX {
        Err(CliError::parse("Task ID out of range"))
    } else {
        Ok(greatest + 1)
    }
}

/// `tasks` with one more task, made from `input` under the next identifier.
pub open spec fn added(tasks: Seq<TaskView>, input: NewTaskView) -> Seq<TaskView> {
    tasks.push(fresh_task(next_id(tasks) as i64, input))
}

/// The task that `input` becomes under the identifier `id`.
pub fn new_task(id: i64, input: NewTask) -> (task: Task)
    ensures
        task@ == fresh_task(id, input@),
{
    let mut task = Task::with_id(id);
    task.deadline = input.deadline;
    task.estimated_time = input.estimated_time;
    task.name = input.name;
    task.description = input.description;
    task
}

/// Adds a task made from `input` behind the others and gives its identifier.
///
/// Fails, and leaves the list as it is, only where no identifier is left.
pub fn add_task(tasks: &mut Vec<Task>, input: NewTask) -> (r: Result<i64, CliError>)
    ensures
        match r {
            Ok(id) => {
                &&& id == next_id(task_views(old(tasks)@))
                &&& task_views(final(tasks)@) == added(task_views(old(tasks)@), input@)
            },
            Err(e) => {
                &&& next_id(task_views(old(tasks)@)) > i64::MAX
                &&& e@ == CliErrorView::Parse("Task ID out of range"@)
                &&& final(tasks)@ == old(tasks)@
            },
        },
{
    let id = match next_task_id(tasks) {
        Ok(id) => id,
        Err(e) => return Err(e),
    };
    tasks.push(new_task(id, input));
    assert(task_views(final(tasks)@) =~= added(task_views(old(tasks)@), input@));
    Ok(id)
}

/// Removes the first task with the identifier `id`; the last task takes its
/// place.
///
/// Fails, and leaves the list as it is, where no task has the identifier.
pub fn remove_task(tasks: &mut Vec<Task>, id: i64) -> (r: Result<Task, CliError>)
    ensures
        match r {
            Ok(removed) => {
                &&& has_id(task_views(old(tasks)@), id)
                &&& removed@ == task_views(old(tasks)@)[position_of(task_views(old(tasks)@), id)]
                &&& task_views(final(tasks)@) == swap_removed(
                    task_views(old(tasks)@),
                    position_of(task_views(old(tasks)@), id),
                )
            },
            Err(e) => {
                &&& !has_id(task_views(old(tasks)@), id)
                &&& e@ == CliErrorView::TaskNotFound(id)
                &&& final(tasks)@ == old(tasks)@
            },
        },
{
    match find_task(tasks, id) {
        Some(index) => {
            let removed = tasks.swap_remove(index);
            assert(task_views(final(tasks)@) =~= swap_removed(
                task_views(old(tasks)@),
                index as int,
            ));
            Ok(removed)
        },
        None => Err(CliError::TaskNotFound(id)),
    }
}

/// What logging progress led to.
#[derive(Clone, Copy, Debug, PartialEq, Eq, Structural)]
pub enum Outcome {
    /// The task stays in the store. Its completion is `progress` out of
    /// `estimated_time` seconds, and `progress < estimated_time`.
    Updated { progress: i64, estimated_time: i64 },
    /// The task reached its estimated time and left the store.
    Completed,
}

/// `task` with `delta` seconds more of progress. The sum stays within the
/// signed 64-bit numbers: beyond them it is the nearest of them.
pub open spec fn advanced(task: TaskView, delta: i64) -> TaskView {
    TaskView {
        id: task.id,
        progress: clamp_i64(task.progress + delta),
        deadline: task.deadline,
        estimated_time: task.estimated_time,
        name: task.name,
        description: task.description,
    }
}

/// Whether the work logged on `task` has reached its estimated time.
pub open spec fn is_complete(task: TaskView) -> bool {
    task.progress >= task.estimated_time
}

/// `tasks` after `delta` seconds of progress on the task at `i`: the task
/// leaves the list where that completes it, and the others keep their order.
pub open spec fn progressed(tasks: Seq<TaskView>, i: int, delta: i64) -> Seq<TaskView> {
    if is_complete(advanced(tasks[i], delta)) {
        tasks.remove(i)
    } else {
        tasks.update(i, advanced(tasks[i], delta))
    }
}

/// What is reported after `delta` seconds of progress on `task`.
pub open spec fn outcome_of(task: TaskView, delta: i64) -> Outcome {
    if is_complete(advanced(task, delta)) {
        Outcome::Completed
    } else {
        Outcome::Updated {
            progress: advanced(task, delta).progress,
            estimated_time: task.estimated_time,
        }
    }
}

/// Logs `delta` seconds of progress on the first task with the identifier `id`,
/// and retires the task where that completes it.
///
/// Fails, and leaves the list as it is, where no task has the identifier.
pub fn record_progress(tasks: &mut Vec<Task>, id: i64, delta: i64) -> (r: Result<
    Outcome,
    CliError,
>)
    ensures
        match r {
            Ok(report) => {
                let before = task_views(old(tasks)@);
                &&& has_id(before, id)
                &&& report == outcome_of(before[position_of(before, id)], delta)
                &&& task_views(final(tasks)@) == progressed(before, position_of(before, id), delta)
            },
            Err(e) => {
                &&& !has_id(task_views(old(tasks)@), id)
                &&& e@ == CliErrorView::TaskNotFound(id)
                &&& final(tasks)@ == old(tasks)@
            },
        },
{
    let index = match find_task(tasks, id) {
        Some(index) => index,
        None => return Err(CliError::TaskNotFound(id)),
    };
    let ghost before = task_views(tasks@);
    let mut task = tasks.remove(index);
    task.progress = clamp(task.progress as i128 + delta as i128);
    assert(task@ == advanced(before[index as int], delta));
    if task.progress >= task.estimated_time {
        assert(task_views(tasks@) =~= before.remove(index as int));
        Ok(Outcome::Completed)
    } else {
        let report = Outcome::Updated {
            progress: task.progress,
            estimated_time: task.estimated_time,
        };
        tasks.insert(index, task);
        assert(task_views(tasks@) =~= before.update(index as int, task@));
        Ok(report)
    }
}

/// The fields of a task that an edit replaces: `None` keeps what is there.
#[derive(Debug)]
pub struct TaskPatch {
    pub deadline: Option<i64>,
    pub estimated_time: Option<i64>,
    pub name: Option<String>,
    pub description: Option<String>,
}

/// A [`TaskPatch`] with its texts as character sequences.
pub struct TaskPatchView {
    pub deadline: Option<i64>,
    pub estimated_time: Option<i64>,
    pub name: Option<Seq<char>>,
    pub description: Option<Seq<char>>,
}

impl View for TaskPatch {
    type V = TaskPatchView;

    open spec fn view(&self) -> TaskPatchView {
        TaskPatchView {
            deadline: self.deadline,
            estimated_time: self.estimated_time,
            name: self.name.deep_view(),
            description: self.description.deep_view(),
        }
    }
}

/// `task` with the fields that `patch` gives in place of its own. The
/// identifier and the progress stay.
pub open spec fn patched(task: TaskView, patch: TaskPatchView) -> TaskView {
    TaskView {
        id: task.id,
        progress: task.progress,
        deadline: match patch.deadline {
            Some(deadline) => deadline,
            None => task.deadline,
        },
        estimated_time: match patch.estimated_time {
            Some(estimated_time) => estimated_time,
            None => task.estimated_time,
        },
        name: match patch.name {
            Some(name) => name,
            None => task.name,
        },
        description: match patch.description {
            Some(description) => description,
            None => task.description,
        },
    }
}

/// Replaces fields of the first task with the identifier `id`, and gives the
/// task as it then is.
///
/// Fails, and leaves the list as it is, where no task has the identifier.
pub fn edit_task(tasks: &mut Vec<Task>, id: i64, patch: TaskPatch) -> (r: Result<Task, CliError>)
    ensures
        match r {
            Ok(edited) => {
                let before = task_views(old(tasks)@);
                &&& has_id(before, id)
                &&& edited@ == patched(before[position_of(before, id)], patch@)
                &&& task_views(final(tasks)@) == before.update(position_of(before, id), edited@)
            },
            Err(e) => {
                &&& !has_id(task_views(old(tasks)@), id)
                &&& e@ == CliErrorView::TaskNotFound(id)
                &&& final(tasks)@ == old(tasks)@
            },
        },
{
    let index = match find_task(tasks, id) {
        Some(index) => index,
        None => return Err(CliError::TaskNotFound(id)),
    };
    let ghost before = task_views(tasks@);
    let mut task = tasks.remove(index);
    if let Some(deadline) = patch.deadline {
        task.deadline = deadline;
    }
    if let Some(estimated_time) = patch.estimated_time {
        task.estimated_time = estimated_time;
    }
    if let Some(name) = patch.name {
        task.name = name;
    }
    if let Some(description) = patch.description {
        task.description = description;
    }
    let edited = task.clone();
    tasks.insert(index, task);
    assert(task_views(tasks@) =~= before.update(index as int, edited@));
    Ok(edited)
}

} // verus!
