//! What holds of a list of tasks, and of the store that holds it, over the
//! commands that change them.

use vstd::prelude::*;
use vstd::utf8::encode_utf8;
use crate::commands::{
    addition, edit_subject, edited, edition, edition_of, loaded, progression, removal_of,
    task_id_of,
};
use crate::engine::{
    added, advanced, distinct_ids, fresh_task, has_id, is_complete, is_position, lemma_max_id,
    lemma_position, max_id, next_id, patched, position_of, progressed, swap_removed, NewTaskView,
    Outcome, TaskPatchView,
};
use crate::error::CliErrorView;
use crate::store::{
    all_encodable, decode_records, encode_records, lemma_append_adds_last,
    lemma_encode_records_single, lemma_store_bytes_of_read, lemma_store_round_trip,
    lemma_truncated_store_is_rejected, rewrite_of, updated, StoreUpdateView,
};
use crate::record::encodable;
use crate::stream::ReadError;
use crate::task::TaskView;

verus! {

/// The task that is added has an identifier greater than every one in use, so
/// that identifiers that were distinct stay distinct.
pub proof fn lemma_add_keeps_ids_distinct(tasks: Seq<TaskView>, input: NewTaskView)
    requires
        distinct_ids(tasks),
        next_id(tasks) <= i64::MAX,
    ensures
        distinct_ids(added(tasks, input)),
        !has_id(tasks, next_id(tasks) as i64),
        max_id(added(tasks, input)) == next_id(tasks),
{
    lemma_max_id(tasks);
    let longer = added(tasks, input);
    assert forall|i: int, j: int| 0 <= i < j < longer.len() implies (#[trigger] longer[i]).id != (
    #[trigger] longer[j]).id by {
        assert(longer[i] == tasks[i]);
        if j < tasks.len() {
            assert(longer[j] == tasks[j]);
        }
    }
    assert(longer.drop_last() =~= tasks);
}

/// Removing a task keeps distinct identifiers distinct, and its identifier is
/// then in use no more.
pub proof fn lemma_remove_keeps_ids_distinct(tasks: Seq<TaskView>, id: i64)
    requires
        distinct_ids(tasks),
        has_id(tasks, id),
    ensures
        distinct_ids(swap_removed(tasks, position_of(tasks, id))),
        !has_id(swap_removed(tasks, position_of(tasks, id)), id),
{
    lemma_position(tasks, id);
    let p = position_of(tasks, id);
    let rest = swap_removed(tasks, p);
    let last = tasks.len() - 1;
    assert forall|i: int| 0 <= i < rest.len() implies (#[trigger] rest[i]).id != id by {
        if i == p {
            assert(rest[i] == tasks[last]);
            assert(tasks[p].id != tasks[last].id);
        } else {
            assert(rest[i] == tasks[i]);
            if i < p {
                assert(tasks[i].id != tasks[p].id);
            } else {
                assert(tasks[p].id != tasks[i].id);
            }
        }
    }
    assert forall|i: int, j: int| 0 <= i < j < rest.len() implies (#[trigger] rest[i]).id != (
    #[trigger] rest[j]).id by {
        let a = if i == p {
            last
        } else {
            i
        };
        let b = if j == p {
            last
        } else {
            j
        };
        assert(rest[i] == tasks[a] && rest[j] == tasks[b]);
        if a < b {
            assert(tasks[a].id != tasks[b].id);
        } else {
            assert(tasks[b].id != tasks[a].id);
        }
    }
}

/// The list after the tasks of `inputs` were added, one after another, to an
/// empty one.
pub open spec fn after_adds(inputs: Seq<NewTaskView>) -> Seq<TaskView>
    decreases inputs.len(),
{
    if inputs.len() == 0 {
        Seq::empty()
    } else {
        added(after_adds(inputs.drop_last()), inputs.last())
    }
}

/// The tasks added to an empty list have the identifiers 0, 1, 2 and so on, in
/// the order in which they were added, and hold what was stated of them.
pub proof fn lemma_fresh_ids_count_up(inputs: Seq<NewTaskView>)
    requires
        inputs.len() <= i64::MAX,
    ensures
        after_adds(inputs).len() == inputs.len(),
        max_id(after_adds(inputs)) == inputs.len() - 1,
        forall|i: int|
            0 <= i < inputs.len() ==> #[trigger] after_adds(inputs)[i] == fresh_task(
                i as i64,
                inputs[i],
            ),
    decreases inputs.len(),
{
    if inputs.len() > 0 {
        let earlier = inputs.drop_last();
        lemma_fresh_ids_count_up(earlier);
        let tasks = after_adds(earlier);
        let longer = added(tasks, inputs.last());
        assert(longer.drop_last() =~= tasks);
        lemma_max_id(tasks);
        assert forall|i: int| 0 <= i < inputs.len() implies #[trigger] after_adds(inputs)[i]
            == fresh_task(i as i64, inputs[i]) by {
            if i < earlier.len() {
                assert(after_adds(inputs)[i] == tasks[i]);
                assert(earlier[i] == inputs[i]);
            }
        }
    }
}

/// One change to a list of tasks.
pub enum Change {
    /// A task is added.
    Add(NewTaskView),
    /// The task with this identifier is removed.
    Remove(i64),
    /// On the task with this identifier so many seconds of progress are logged.
    Progress(i64, i64),
    /// Fields of the task with this identifier are replaced.
    Edit(i64, TaskPatchView),
}

/// The list after one change. A change that fails, for want of a free
/// identifier or of a task with the identifier, leaves the list as it is.
pub open spec fn changed(tasks: Seq<TaskView>, change: Change) -> Seq<TaskView> {
    match change {
        Change::Add(input) => if next_id(tasks) <= i64::MAX {
            added(tasks, input)
        } else {
            tasks
        },
        Change::Remove(id) => if has_id(tasks, id) {
            swap_removed(tasks, position_of(tasks, id))
        } else {
            tasks
        },
        Change::Progress(id, delta) => if has_id(tasks, id) {
            progressed(tasks, position_of(tasks, id), delta)
        } else {
            tasks
        },
        Change::Edit(id, patch) => if has_id(tasks, id) {
            edited(tasks, id, patch)
        } else {
            tasks
        },
    }
}

/// The list after `changes`, one after another, starting from `tasks`.
pub open spec fn after_changes(tasks: Seq<TaskView>, changes: Seq<Change>) -> Seq<TaskView>
    decreases changes.len(),
{
    if changes.len() == 0 {
        tasks
    } else {
        changed(after_changes(tasks, changes.drop_last()), changes.last())
    }
}

/// Where progress brings the task with the identifier `id` to its estimated
/// time, no task of the list has that identifier afterwards. This needs the
/// identifiers to be distinct: of two tasks with one identifier only the first
/// is advanced.
pub proof fn lemma_completion_removes(tasks: Seq<TaskView>, id: i64, delta: i64)
    requires
        distinct_ids(tasks),
        has_id(tasks, id),
        is_complete(advanced(tasks[position_of(tasks, id)], delta)),
    ensures
        !has_id(progressed(tasks, position_of(tasks, id), delta), id),
        distinct_ids(progressed(tasks, position_of(tasks, id), delta)),
{
    lemma_position(tasks, id);
    let p = position_of(tasks, id);
    let rest = tasks.remove(p);
    assert forall|i: int| 0 <= i < rest.len() implies (#[trigger] rest[i]).id != id by {
        if i < p {
            assert(rest[i] == tasks[i]);
            assert(tasks[i].id != tasks[p].id);
        } else {
            assert(rest[i] == tasks[i + 1]);
            assert(tasks[p].id != tasks[i + 1].id);
        }
    }
    assert forall|i: int, j: int| 0 <= i < j < rest.len() implies (#[trigger] rest[i]).id != (
    #[trigger] rest[j]).id by {
        let a = if i < p {
            i
        } else {
            i + 1
        };
        let b = if j < p {
            j
        } else {
            j + 1
        };
        assert(rest[i] == tasks[a] && rest[j] == tasks[b]);
        assert(tasks[a].id != tasks[b].id);
    }
}

/// Progress that does not complete a task keeps the task, with its identifier,
/// and keeps distinct identifiers distinct.
pub proof fn lemma_partial_progress_keeps(tasks: Seq<TaskView>, id: i64, delta: i64)
    requires
        has_id(tasks, id),
        !is_complete(advanced(tasks[position_of(tasks, id)], delta)),
    ensures
        has_id(progressed(tasks, position_of(tasks, id), delta), id),
        progressed(tasks, position_of(tasks, id), delta).len() == tasks.len(),
        distinct_ids(tasks) ==> distinct_ids(progressed(tasks, position_of(tasks, id), delta)),
{
    lemma_position(tasks, id);
    let p = position_of(tasks, id);
    let after = progressed(tasks, p, delta);
    assert(after[p].id == id);
    if distinct_ids(tasks) {
        assert forall|i: int, j: int| 0 <= i < j < after.len() implies (#[trigger] after[i]).id != (
        #[trigger] after[j]).id by {
            assert(after[i].id == tasks[i].id && after[j].id == tasks[j].id);
        }
    }
}

/// An edit keeps the identifiers, and so keeps distinct identifiers distinct.
pub proof fn lemma_edit_keeps_ids(tasks: Seq<TaskView>, id: i64, patch: TaskPatchView)
    requires
        has_id(tasks, id),
    ensures
        edited(tasks, id, patch).len() == tasks.len(),
        forall|i: int|
            0 <= i < tasks.len() ==> (#[trigger] edited(tasks, id, patch)[i]).id == tasks[i].id,
        distinct_ids(tasks) ==> distinct_ids(edited(tasks, id, patch)),
{
    lemma_position(tasks, id);
    let after = edited(tasks, id, patch);
    assert forall|i: int| 0 <= i < tasks.len() implies (#[trigger] after[i]).id == tasks[i].id by {}
    if distinct_ids(tasks) {
        assert forall|i: int, j: int| 0 <= i < j < after.len() implies (#[trigger] after[i]).id != (
        #[trigger] after[j]).id by {
            assert(after[i].id == tasks[i].id && after[j].id == tasks[j].id);
        }
    }
}

/// After any sequence of additions, removals, progress and edits no two tasks
/// share an identifier, if none did before.
pub proof fn lemma_ids_stay_distinct(tasks: Seq<TaskView>, changes: Seq<Change>)
    requires
        distinct_ids(tasks),
    ensures
        distinct_ids(after_changes(tasks, changes)),
    decreases changes.len(),
{
    if changes.len() > 0 {
        lemma_ids_stay_distinct(tasks, changes.drop_last());
        let before = after_changes(tasks, changes.drop_last());
        match changes.last() {
            Change::Add(input) => {
                if next_id(before) <= i64::MAX {
                    lemma_add_keeps_ids_distinct(before, input);
                }
            },
            Change::Remove(id) => {
                if has_id(before, id) {
                    lemma_remove_keeps_ids_distinct(before, id);
                }
            },
            Change::Progress(id, delta) => {
                if has_id(before, id) {
                    if is_complete(advanced(before[position_of(before, id)], delta)) {
                        lemma_completion_removes(before, id, delta);
                    } else {
                        lemma_partial_progress_keeps(before, id, delta);
                    }
                }
            },
            Change::Edit(id, patch) => {
                if has_id(before, id) {
                    lemma_edit_keeps_ids(before, id, patch);
                }
            },
        }
    }
}

/// Whether the store holds exactly `tasks`, in this order. Where there is no
/// file the store holds no task.
pub open spec fn holds(store: Option<Seq<u8>>, tasks: Seq<TaskView>) -> bool {
    match store {
        None => tasks.len() == 0,
        Some(bytes) => decode_records(bytes) == Ok::<_, ReadError>(tasks),
    }
}

/// Whether the texts of `input` are short enough for their length prefixes.
pub open spec fn storable(input: NewTaskView) -> bool {
    &&& encode_utf8(input.name).len() <= usize::MAX
    &&& encode_utf8(input.description).len() <= usize::MAX
}

/// Whatever a store holds can be stored.
pub proof fn lemma_held_tasks_are_encodable(store: Option<Seq<u8>>, tasks: Seq<TaskView>)
    requires
        holds(store, tasks),
    ensures
        all_encodable(tasks),
{
    if let Some(bytes) = store {
        lemma_store_bytes_of_read(bytes);
    }
}

/// A store that was written anew holds what was written, and the file is gone
/// where nothing was left to write: the file of an empty store does not exist.
pub proof fn lemma_rewrite_is_read_back(store: Option<Seq<u8>>, tasks: Seq<TaskView>)
    requires
        all_encodable(tasks),
    ensures
        holds(updated(store, rewrite_of(tasks)), tasks),
        tasks.len() == 0 <==> updated(store, rewrite_of(tasks)) is None,
{
    lemma_store_round_trip(tasks);
}

/// After `add` the store holds the tasks it held and the new one behind them.
pub proof fn lemma_addition_is_read_back(
    store: Option<Seq<u8>>,
    tasks: Seq<TaskView>,
    input: NewTaskView,
)
    requires
        holds(store, tasks),
        storable(input),
        next_id(tasks) <= i64::MAX,
    ensures
        addition(store, input) matches Ok((task, update)) && {
            &&& task == fresh_task(next_id(tasks) as i64, input)
            &&& holds(updated(store, update), added(tasks, input))
        },
{
    lemma_max_id(tasks);
    let task = fresh_task(next_id(tasks) as i64, input);
    assert(encodable(task));
    match store {
        None => {
            assert(tasks =~= Seq::empty());
            lemma_encode_records_single(task);
            assert(all_encodable(seq![task]));
            lemma_store_round_trip(seq![task]);
            assert(added(tasks, input) =~= seq![task]);
        },
        Some(bytes) => {
            lemma_append_adds_last(bytes, task);
        },
    }
}

/// The store after the tasks of `inputs` were added, one command after another,
/// where there was no file.
pub open spec fn store_after_adds(inputs: Seq<NewTaskView>) -> Option<Seq<u8>>
    decreases inputs.len(),
{
    if inputs.len() == 0 {
        None
    } else {
        let before = store_after_adds(inputs.drop_last());
        match addition(before, inputs.last()) {
            Ok((_, update)) => updated(before, update),
            Err(_) => before,
        }
    }
}

/// After N additions to a fresh store the store holds N tasks with the
/// identifiers 0, 1, ..., N - 1, in this order.
pub proof fn lemma_adds_count_up(inputs: Seq<NewTaskView>)
    requires
        inputs.len() <= i64::MAX,
        forall|i: int| 0 <= i < inputs.len() ==> storable(#[trigger] inputs[i]),
    ensures
        holds(store_after_adds(inputs), after_adds(inputs)),
        after_adds(inputs).len() == inputs.len(),
        forall|i: int| 0 <= i < inputs.len() ==> (#[trigger] after_adds(inputs)[i]).id == i,
    decreases inputs.len(),
{
    lemma_fresh_ids_count_up(inputs);
    if inputs.len() > 0 {
        let earlier = inputs.drop_last();
        assert forall|i: int| 0 <= i < earlier.len() implies storable(#[trigger] earlier[i]) by {
            assert(earlier[i] == inputs[i]);
        }
        lemma_adds_count_up(earlier);
        lemma_fresh_ids_count_up(earlier);
        lemma_addition_is_read_back(store_after_adds(earlier), after_adds(earlier), inputs.last());
    }
}

/// Whether the texts that `patch` gives are short enough for their length
/// prefixes.
pub open spec fn storable_patch(patch: TaskPatchView) -> bool {
    &&& patch.name matches Some(name) ==> encode_utf8(name).len() <= usize::MAX
    &&& patch.description matches Some(description) ==> encode_utf8(description).len()
        <= usize::MAX
}

/// Whether the texts that `change` brings can be stored.
pub open spec fn storable_change(change: Change) -> bool {
    match change {
        Change::Add(input) => storable(input),
        Change::Edit(_, patch) => storable_patch(patch),
        _ => true,
    }
}

/// Whether the texts that `changes` bring can be stored.
pub open spec fn all_storable(changes: Seq<Change>) -> bool {
    forall|i: int| 0 <= i < changes.len() ==> storable_change(#[trigger] changes[i])
}

/// The store after the command that makes `change`, where the store held
/// `tasks`. A command that fails leaves the store as it is.
pub open spec fn store_after(
    store: Option<Seq<u8>>,
    tasks: Seq<TaskView>,
    change: Change,
) -> Option<Seq<u8>> {
    let answer = match change {
        Change::Add(input) => match addition(store, input) {
            Ok((_, update)) => Some(update),
            Err(_) => None,
        },
        Change::Remove(id) => match removal_of(tasks, id) {
            Ok((_, update)) => Some(update),
            Err(_) => None,
        },
        Change::Progress(id, delta) => match progression(tasks, id, delta) {
            Ok((_, update)) => Some(update),
            Err(_) => None,
        },
        Change::Edit(id, patch) => match edition_of(tasks, id, patch) {
            Ok((_, update)) => Some(update),
            Err(_) => None,
        },
    };
    match answer {
        Some(update) => updated(store, update),
        None => store,
    }
}

/// The store after one change. A store that cannot be read stays as it is.
pub open spec fn store_after_change(store: Option<Seq<u8>>, change: Change) -> Option<Seq<u8>> {
    match store {
        None => store_after(store, Seq::empty(), change),
        Some(bytes) => match decode_records(bytes) {
            Ok(tasks) => store_after(store, tasks, change),
            Err(_) => store,
        },
    }
}

/// The store after `changes`, one command after another, starting from `store`.
pub open spec fn store_after_changes(store: Option<Seq<u8>>, changes: Seq<Change>) -> Option<
    Seq<u8>,
>
    decreases changes.len(),
{
    if changes.len() == 0 {
        store
    } else {
        store_after_change(store_after_changes(store, changes.drop_last()), changes.last())
    }
}

/// Where every task of `tasks` can be stored, so can every task of the list
/// after a change that brings texts that can be stored.
pub proof fn lemma_change_keeps_encodable(tasks: Seq<TaskView>, change: Change)
    requires
        all_encodable(tasks),
        storable_change(change),
    ensures
        all_encodable(changed(tasks, change)),
{
    let after = changed(tasks, change);
    match change {
        Change::Add(input) => {
            if next_id(tasks) <= i64::MAX {
                lemma_max_id(tasks);
                assert forall|i: int| 0 <= i < after.len() implies encodable(
                    #[trigger] after[i],
                ) by {
                    if i < tasks.len() {
                        assert(after[i] == tasks[i]);
                    }
                }
            }
        },
        Change::Remove(id) => {
            if has_id(tasks, id) {
                lemma_position(tasks, id);
                assert forall|i: int| 0 <= i < after.len() implies encodable(
                    #[trigger] after[i],
                ) by {
                    if i == position_of(tasks, id) {
                        assert(after[i] == tasks[tasks.len() - 1]);
                    } else {
                        assert(after[i] == tasks[i]);
                    }
                }
            }
        },
        Change::Progress(id, delta) => {
            if has_id(tasks, id) {
                lemma_position(tasks, id);
                let p = position_of(tasks, id);
                assert forall|i: int| 0 <= i < after.len() implies encodable(
                    #[trigger] after[i],
                ) by {
                    if is_complete(advanced(tasks[p], delta)) {
                        if i < p {
                            assert(after[i] == tasks[i]);
                        } else {
                            assert(after[i] == tasks[i + 1]);
                        }
                    } else {
                        assert(encodable(tasks[i]));
                    }
                }
            }
        },
        Change::Edit(id, patch) => {
            if has_id(tasks, id) {
                lemma_position(tasks, id);
                assert forall|i: int| 0 <= i < after.len() implies encodable(
                    #[trigger] after[i],
                ) by {
                    assert(encodable(tasks[i]));
                }
            }
        },
    }
}

/// A change to the store is the change to the list that it holds.
pub proof fn lemma_change_is_read_back(store: Option<Seq<u8>>, tasks: Seq<TaskView>, change: Change)
    requires
        holds(store, tasks),
        storable_change(change),
    ensures
        holds(store_after_change(store, change), changed(tasks, change)),
{
    lemma_held_tasks_are_encodable(store, tasks);
    lemma_change_keeps_encodable(tasks, change);
    if store is None {
        assert(tasks =~= Seq::empty());
    }
    let after = changed(tasks, change);
    match change {
        Change::Add(input) => {
            if next_id(tasks) <= i64::MAX {
                lemma_addition_is_read_back(store, tasks, input);
            }
        },
        Change::Remove(id) => {
            if has_id(tasks, id) {
                lemma_rewrite_is_read_back(store, after);
            }
        },
        Change::Progress(id, delta) => {
            if has_id(tasks, id) {
                lemma_rewrite_is_read_back(store, after);
            }
        },
        Change::Edit(id, patch) => {
            if has_id(tasks, id) {
                lemma_store_round_trip(after);
            }
        },
    }
}

/// However tasks are added to a store, removed from it, advanced and edited,
/// the store then holds what the changes make of its list, and no two tasks
/// that it holds share an identifier, if none did before.
pub proof fn lemma_stored_ids_stay_distinct(
    store: Option<Seq<u8>>,
    tasks: Seq<TaskView>,
    changes: Seq<Change>,
)
    requires
        holds(store, tasks),
        distinct_ids(tasks),
        all_storable(changes),
    ensures
        holds(store_after_changes(store, changes), after_changes(tasks, changes)),
        distinct_ids(after_changes(tasks, changes)),
    decreases changes.len(),
{
    lemma_ids_stay_distinct(tasks, changes);
    if changes.len() > 0 {
        let earlier = changes.drop_last();
        assert forall|i: int| 0 <= i < earlier.len() implies storable_change(
            #[trigger] earlier[i],
        ) by {
            assert(earlier[i] == changes[i]);
        }
        lemma_stored_ids_stay_distinct(store, tasks, earlier);
        assert(changes[changes.len() - 1] == changes.last());
        lemma_change_is_read_back(
            store_after_changes(store, earlier),
            after_changes(tasks, earlier),
            changes.last(),
        );
    }
}

/// In a store that began as no file, whatever was added, removed, advanced
/// and edited since, no two tasks share an identifier.
pub proof fn lemma_fresh_store_ids_are_distinct(changes: Seq<Change>)
    requires
        all_storable(changes),
    ensures
        holds(store_after_changes(None, changes), after_changes(Seq::empty(), changes)),
        distinct_ids(after_changes(Seq::empty(), changes)),
{
    lemma_stored_ids_stay_distinct(None, Seq::empty(), changes);
}

/// Where progress brings a task to its estimated time, the store holds no task
/// with its identifier afterwards, given that the identifiers in the store were
/// distinct.
pub proof fn lemma_completed_task_leaves_store(
    store: Option<Seq<u8>>,
    tasks: Seq<TaskView>,
    id: i64,
    delta: i64,
)
    requires
        holds(store, tasks),
        distinct_ids(tasks),
        has_id(tasks, id),
        is_complete(advanced(tasks[position_of(tasks, id)], delta)),
    ensures
        progression(tasks, id, delta) matches Ok((report, update)) && {
            &&& report == Outcome::Completed
            &&& holds(updated(store, update), progressed(tasks, position_of(tasks, id), delta))
            &&& !has_id(progressed(tasks, position_of(tasks, id), delta), id)
        },
{
    lemma_position(tasks, id);
    lemma_completion_removes(tasks, id, delta);
    lemma_held_tasks_are_encodable(store, tasks);
    let p = position_of(tasks, id);
    let rest = tasks.remove(p);
    assert forall|i: int| 0 <= i < rest.len() implies encodable(#[trigger] rest[i]) by {
        if i < p {
            assert(rest[i] == tasks[i]);
        } else {
            assert(rest[i] == tasks[i + 1]);
        }
    }
    lemma_rewrite_is_read_back(store, rest);
}

/// The command that takes the last task out of a store, be it a removal or the
/// progress that completes the task, asks for the file to be deleted, and then
/// there is no file.
pub proof fn lemma_last_task_leaves_no_file(
    store: Option<Seq<u8>>,
    tasks: Seq<TaskView>,
    id: i64,
    delta: i64,
)
    requires
        holds(store, tasks),
        tasks.len() == 1,
        tasks[0].id == id,
    ensures
        removal_of(tasks, id) == Ok::<_, CliErrorView>((id, StoreUpdateView::Delete)),
        is_complete(advanced(tasks[0], delta)) ==> progression(tasks, id, delta) == Ok::<
            _,
            CliErrorView,
        >((Outcome::Completed, StoreUpdateView::Delete)),
        updated(store, StoreUpdateView::Delete) is None,
{
    assert(is_position(tasks, id, 0));
    lemma_position(tasks, id);
    assert(swap_removed(tasks, 0) =~= Seq::empty());
    assert(tasks.remove(0) =~= Seq::empty());
}

/// An edit that replaces nothing writes the store as it was, byte for byte.
pub proof fn lemma_empty_edit_keeps_store(
    bytes: Seq<u8>,
    path: Seq<char>,
    id_text: Seq<char>,
)
    requires
        edition(Some(bytes), path, id_text, nothing()) is Ok,
    ensures
        ({
            let (task, update) = edition(Some(bytes), path, id_text, nothing())->Ok_0;
            &&& edit_subject(Some(bytes), path, id_text) == Ok::<_, CliErrorView>(task)
            &&& update == StoreUpdateView::Overwrite(bytes)
        }),
{
    let tasks = decode_records(bytes)->Ok_0;
    let id = task_id_of(id_text)->Ok_0;
    lemma_position(tasks, id);
    let place = position_of(tasks, id);
    assert(patched(tasks[place], nothing()) == tasks[place]);
    assert(tasks.update(place, tasks[place]) =~= tasks);
    lemma_store_bytes_of_read(bytes);
}

/// The edit that replaces nothing.
pub open spec fn nothing() -> TaskPatchView {
    TaskPatchView { deadline: None, estimated_time: None, name: None, description: None }
}

/// A store of at least one task that lost its last byte stops every command
/// with the error of a corrupt file, so that no command answers with an update
/// for it.
pub proof fn lemma_truncated_store_stops_commands(
    tasks: Seq<TaskView>,
    path: Seq<char>,
    input: NewTaskView,
)
    requires
        tasks.len() > 0,
        all_encodable(tasks),
    ensures
        loaded(Some(encode_records(tasks).drop_last()), path) == Err::<Seq<TaskView>, _>(
            CliErrorView::CorruptFile,
        ),
        addition(Some(encode_records(tasks).drop_last()), input) == Err::<
            (TaskView, StoreUpdateView),
            _,
        >(CliErrorView::CorruptFile),
{
    lemma_truncated_store_is_rejected(tasks);
}

} // verus!
