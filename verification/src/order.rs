//! The order in which tasks are listed.

use vstd::prelude::*;
use crate::task::{task_views, Task, TaskView};

verus! {

/// The seconds from the instant `now` to the deadline of `task`: negative once
/// the task is overdue.
pub open spec fn time_left(task: TaskView, now: i64) -> int {
    task.deadline - now
}

/// Whether `first` may stand before `second` in a list made at the instant
/// `now`: it has less time left, or as much and no greater identifier.
pub open spec fn precedes(first: TaskView, second: TaskView, now: i64) -> bool {
    ||| time_left(first, now) < time_left(second, now)
    ||| time_left(first, now) == time_left(second, now) && first.id <= second.id
}

/// Whether `tasks` stand in the order of a list made at the instant `now`.
pub open spec fn in_urgency_order(tasks: Seq<TaskView>, now: i64) -> bool {
    forall|i: int, j: int|
        0 <= i < j < tasks.len() ==> precedes(#[trigger] tasks[i], #[trigger] tasks[j], now)
}

/// A new element adds itself to what a sequence holds, wherever it goes in.
pub proof fn lemma_insert_to_multiset<A>(s: Seq<A>, i: int, value: A)
    requires
        0 <= i <= s.len(),
    ensures
        s.insert(i, value).to_multiset() == s.to_multiset().insert(value),
{
    broadcast use vstd::seq_lib::group_to_multiset_ensures;

    let longer = s.insert(i, value);
    assert(longer.remove(i) =~= s);
    assert(longer[i] == value);
    assert(longer.to_multiset().remove(value) =~= s.to_multiset());
    assert(longer.contains(value));
    assert(longer.to_multiset() =~= s.to_multiset().insert(value));
}

/// Whether `first` may stand before `second` in a list: its deadline is
/// earlier, or the same with no greater identifier.
pub open spec fn comes_first(first: TaskView, second: TaskView) -> bool {
    ||| first.deadline < second.deadline
    ||| first.deadline == second.deadline && first.id <= second.id
}

/// Whether `tasks` stand in the order of a list.
pub open spec fn urgency_ordered(tasks: Seq<TaskView>) -> bool {
    forall|i: int, j: int|
        0 <= i < j < tasks.len() ==> comes_first(#[trigger] tasks[i], #[trigger] tasks[j])
}

/// The order by deadline and identifier is the order by time left and
/// identifier, at whatever instant the time left is taken.
pub proof fn lemma_order_at_any_instant(tasks: Seq<TaskView>, now: i64)
    ensures
        urgency_ordered(tasks) <==> in_urgency_order(tasks, now),
{
    if urgency_ordered(tasks) {
        assert forall|i: int, j: int| 0 <= i < j < tasks.len() implies precedes(
            #[trigger] tasks[i],
            #[trigger] tasks[j],
            now,
        ) by {
            assert(comes_first(tasks[i], tasks[j]));
        }
    }
    if in_urgency_order(tasks, now) {
        assert forall|i: int, j: int| 0 <= i < j < tasks.len() implies comes_first(
            #[trigger] tasks[i],
            #[trigger] tasks[j],
        ) by {
            assert(precedes(tasks[i], tasks[j], now));
        }
    }
}

/// Whether `place` is where `task` goes into `sorted`: behind every task that
/// may stand before it, so that tasks with one deadline and one identifier keep
/// the order in which they came.
pub open spec fn is_insertion_place(sorted: Seq<TaskView>, task: TaskView, place: int) -> bool {
    &&& 0 <= place <= sorted.len()
    &&& forall|k: int| 0 <= k < place ==> comes_first(#[trigger] sorted[k], task)
    &&& place < sorted.len() ==> !comes_first(sorted[place], task)
}

/// Where `task` goes into `sorted`.
pub open spec fn insertion_place(sorted: Seq<TaskView>, task: TaskView) -> int {
    choose|place: int| is_insertion_place(sorted, task, place)
}

/// `tasks` as they are listed: each task in turn put in its place among those
/// before it.
pub open spec fn listed(tasks: Seq<TaskView>) -> Seq<TaskView>
    decreases tasks.len(),
{
    if tasks.len() == 0 {
        Seq::empty()
    } else {
        listed(tasks.drop_last()).insert(
            insertion_place(listed(tasks.drop_last()), tasks.last()),
            tasks.last(),
        )
    }
}

/// There is one place at most where a task goes into a list.
pub proof fn lemma_insertion_place(sorted: Seq<TaskView>, task: TaskView, place: int)
    requires
        is_insertion_place(sorted, task, place),
    ensures
        place == insertion_place(sorted, task),
{
    let other = insertion_place(sorted, task);
    assert(is_insertion_place(sorted, task, other));
    if place < other {
        assert(comes_first(sorted[place], task));
    } else if other < place {
        assert(comes_first(sorted[other], task));
    }
}

/// Behind tasks that may all stand before `task` there is a place for it.
proof fn lemma_place_from(sorted: Seq<TaskView>, task: TaskView, from: int)
    requires
        0 <= from <= sorted.len(),
        forall|k: int| 0 <= k < from ==> comes_first(#[trigger] sorted[k], task),
    ensures
        is_insertion_place(sorted, task, insertion_place(sorted, task)),
    decreases sorted.len() - from,
{
    if from < sorted.len() && comes_first(sorted[from], task) {
        lemma_place_from(sorted, task, from + 1);
    } else {
        assert(is_insertion_place(sorted, task, from));
    }
}

/// The tasks as they are listed are the tasks that were given, each as often as
/// it was given, and they stand in the order of a list.
pub proof fn lemma_listed_is_ordered(tasks: Seq<TaskView>)
    ensures
        listed(tasks).len() == tasks.len(),
        listed(tasks).to_multiset() == tasks.to_multiset(),
        urgency_ordered(listed(tasks)),
    decreases tasks.len(),
{
    broadcast use vstd::seq_lib::group_to_multiset_ensures;

    if tasks.len() == 0 {
        assert(tasks =~= Seq::empty());
    } else {
        let earlier = tasks.drop_last();
        let task = tasks.last();
        let before = listed(earlier);
        lemma_listed_is_ordered(earlier);
        lemma_place_from(before, task, 0);
        let place = insertion_place(before, task);
        let longer = before.insert(place, task);
        lemma_insert_to_multiset(before, place, task);
        assert(tasks =~= earlier.push(task));
        vstd::seq_lib::to_multiset_build(earlier, task);
        assert forall|a: int, b: int| 0 <= a < b < longer.len() implies comes_first(
            #[trigger] longer[a],
            #[trigger] longer[b],
        ) by {
            if b < place {
                assert(longer[a] == before[a] && longer[b] == before[b]);
            } else if b == place {
                assert(longer[a] == before[a]);
            } else if a == place {
                assert(longer[b] == before[b - 1]);
                assert(!comes_first(before[place], task));
                if b - 1 > place {
                    assert(comes_first(before[place], before[b - 1]));
                }
            } else if a < place {
                assert(longer[a] == before[a] && longer[b] == before[b - 1]);
            } else {
                assert(longer[a] == before[a - 1] && longer[b] == before[b - 1]);
            }
        }
    }
}

/// Whether the task `first` goes before `second`: by deadline, then by
/// identifier.
fn goes_before(first: &Task, second: &Task) -> (before: bool)
    ensures
        before == !comes_first(second@, first@),
{
    first.deadline < second.deadline || (first.deadline == second.deadline && first.id
        < second.id)
}

/// The tasks in the order in which they are listed: the least time left first,
/// so the most overdue at the top, and among tasks with the same deadline the
/// smaller identifier first. The order is the same at whatever instant the list
/// is made. Tasks with one deadline and one identifier keep the order in which
/// they came.
pub fn sort_by_urgency(tasks: Vec<Task>) -> (sorted: Vec<Task>)
    ensures
        task_views(sorted@) == listed(task_views(tasks@)),
        task_views(sorted@).to_multiset() == task_views(tasks@).to_multiset(),
        sorted@.len() == tasks@.len(),
        urgency_ordered(task_views(sorted@)),
        forall|now: i64| #[trigger] in_urgency_order(task_views(sorted@), now),
{
    let ghost views = task_views(tasks@);
    let mut sorted: Vec<Task> = Vec::new();
    let mut i: usize = 0;
    assert(views.take(0) =~= Seq::empty());
    assert(task_views(sorted@) =~= Seq::empty());
    while i < tasks.len()
        invariant
            i <= tasks.len(),
            views == task_views(tasks@),
            sorted@.len() == i,
            task_views(sorted@) == listed(views.take(i as int)),
        decreases tasks.len() - i,
    {
        let task = tasks[i].clone();
        let ghost so_far = task_views(sorted@);
        let mut place: usize = 0;
        while place < sorted.len() && !goes_before(&task, &sorted[place])
            invariant
                place <= sorted.len(),
                so_far == task_views(sorted@),
                forall|k: int| 0 <= k < place ==> comes_first(#[trigger] so_far[k], task@),
            decreases sorted.len() - place,
        {
            place += 1;
        }
        proof {
            lemma_insertion_place(so_far, task@, place as int);
            assert(views.take(i + 1).drop_last() =~= views.take(i as int));
            assert(views.take(i + 1).last() == task@);
            assert(task_views(sorted@.insert(place as int, task)) =~= so_far.insert(
                place as int,
                task@,
            ));
        }
        sorted.insert(place, task);
        i += 1;
    }
    proof {
        assert(views.take(i as int) =~= views);
        lemma_listed_is_ordered(views);
        assert forall|now: i64| #[trigger] in_urgency_order(task_views(sorted@), now) by {
            lemma_order_at_any_instant(task_views(sorted@), now);
        }
    }
    sorted
}

} // verus!
