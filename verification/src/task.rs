//! The task and what is derived from it.

use vstd::prelude::*;
use crate::clock::{is_date_time_text, local_text, shows_plain_year, unix_now};

verus! {

/// What a task holds, with its texts as character sequences.
pub struct TaskView {
    pub id: i64,
    pub progress: i64,
    pub deadline: i64,
    pub estimated_time: i64,
    pub name: Seq<char>,
    pub description: Seq<char>,
}

/// How a deadline is written for the user.
pub const DUE_FORMAT: &'static str = "%Y-%m-%d %H:%M:%S";

/// One unit of work.
#[derive(Debug)]
pub struct Task {
    /// Unique within a store; fixed when the task is made.
    pub id: i64,
    /// Seconds of work logged so far.
    pub progress: i64,
    /// The due instant, in seconds since the Unix epoch.
    pub deadline: i64,
    /// The forecast of the whole effort, in seconds.
    pub estimated_time: i64,
    pub name: String,
    pub description: String,
}

impl View for Task {
    type V = TaskView;

    open spec fn view(&self) -> TaskView {
        TaskView {
            id: self.id,
            progress: self.progress,
            deadline: self.deadline,
            estimated_time: self.estimated_time,
            name: self.name@,
            description: self.description@,
        }
    }
}

impl DeepView for Task {
    type V = TaskView;

    open spec fn deep_view(&self) -> TaskView {
        self@
    }
}

impl Clone for Task {
    fn clone(&self) -> (copy: Self)
        ensures
            copy == *self,
    {
        Task {
            id: self.id,
            progress: self.progress,
            deadline: self.deadline,
            estimated_time: self.estimated_time,
            name: self.name.clone(),
            description: self.description.clone(),
        }
    }
}

/// A share: `numerator` parts out of `denominator`.
#[derive(Clone, Copy, Debug, PartialEq, Eq, Structural)]
pub struct Fraction {
    pub numerator: i64,
    pub denominator: i64,
}

impl Fraction {
    /// Whether the share is of something: its denominator is positive.
    pub open spec fn wf(self) -> bool {
        self.denominator > 0
    }
}

/// `value`, or the nearest signed 64-bit number where it is none.
pub open spec fn clamp_i64(value: int) -> i64 {
    if value < i64::MIN {
        i64::MIN
    } else if value > i64::MAX {
        i64::MAX
    } else {
        value as i64
    }
}

/// `value`, or the nearest signed 64-bit number where it is none.
pub fn clamp(value: i128) -> (near: i64)
    ensures
        near == clamp_i64(value as int),
{
    if value < i64::MIN as i128 {
        i64::MIN
    } else if value > i64::MAX as i128 {
        i64::MAX
    } else {
        value as i64
    }
}

/// The share of `task` that is done: its progress out of its estimated time,
/// and all of it where no time is estimated.
pub open spec fn completion_of(task: TaskView) -> Fraction {
    if task.estimated_time > 0 {
        Fraction { numerator: task.progress, denominator: task.estimated_time }
    } else {
        Fraction { numerator: 1, denominator: 1 }
    }
}

/// The seconds from the instant `now` to the deadline of `task`, kept within
/// the signed 64-bit numbers.
pub open spec fn time_left_at(task: TaskView, now: i64) -> i64 {
    clamp_i64(task.deadline - now)
}

/// The seconds of work that `task` still needs: never negative.
pub open spec fn remaining_work(task: TaskView) -> i64 {
    if task.progress >= task.estimated_time {
        0
    } else {
        clamp_i64(task.estimated_time - task.progress)
    }
}

/// The views of `tasks`, in their order.
pub open spec fn task_views(tasks: Seq<Task>) -> Seq<TaskView> {
    tasks.map_values(|task: Task| task@)
}

impl Task {
    /// An empty task with identifier 0.
    pub fn new() -> (task: Self)
        ensures
            task@ == (TaskView {
                id: 0,
                progress: 0,
                deadline: 0,
                estimated_time: 0,
                name: Seq::empty(),
                description: Seq::empty(),
            }),
    {
        Task {
            id: 0,
            progress: 0,
            deadline: 0,
            estimated_time: 0,
            name: String::new(),
            description: String::new(),
        }
    }

    /// An empty task with the identifier `id`.
    pub fn with_id(id: i64) -> (task: Self)
        ensures
            task@ == (TaskView {
                id,
                progress: 0,
                deadline: 0,
                estimated_time: 0,
                name: Seq::empty(),
                description: Seq::empty(),
            }),
    {
        let mut task = Task::new();
        task.id = id;
        task
    }

    /// A task with every field given.
    pub fn with_details(
        id: i64,
        progress: i64,
        due: i64,
        estimated_time: i64,
        name: String,
        description: String,
    ) -> (task: Self)
        ensures
            task@ == (TaskView {
                id,
                progress,
                deadline: due,
                estimated_time,
                name: name@,
                description: description@,
            }),
            task.name == name,
            task.description == description,
    {
        Task { id, progress, deadline: due, name, description, estimated_time }
    }

    /// The identifier.
    pub fn id(&self) -> (id: i64)
        ensures
            id == self.id,
    {
        self.id
    }

    /// How far the task has come: the seconds logged out of the seconds
    /// estimated. A task with no estimated time counts as done.
    pub fn get_completion(&self) -> (share: Fraction)
        ensures
            share == completion_of(self@),
            share.wf(),
    {
        if self.estimated_time > 0 {
            Fraction { numerator: self.progress, denominator: self.estimated_time }
        } else {
            Fraction { numerator: 1, denominator: 1 }
        }
    }

    /// The seconds from `now` to the deadline: negative once the task is
    /// overdue. Where no signed 64-bit number holds the difference the nearest
    /// one is given.
    pub fn time_to_deadline(&self, now: i64) -> (left: i64)
        ensures
            left == time_left_at(self@, now),
    {
        clamp(self.deadline as i128 - now as i128)
    }

    /// The seconds from the moment of the call to the deadline: what
    /// [`Task::time_to_deadline`] gives for the instant that the host's clock
    /// shows.
    pub fn get_time_left(&self) -> (left: i64)
        ensures
            exists|now: i64| left == #[trigger] time_left_at(self@, now),
    {
        let now = unix_now();
        self.time_to_deadline(now)
    }

    /// The seconds of work still to do: the estimated time less the progress,
    /// and 0 once the progress has reached it. Where no signed 64-bit number
    /// holds the difference the greatest one is given.
    pub fn time_to_complete(&self) -> (left: i64)
        ensures
            left == remaining_work(self@),
            left >= 0,
    {
        if self.progress >= self.estimated_time {
            0
        } else {
            clamp(self.estimated_time as i128 - self.progress as i128)
        }
    }

    /// The deadline as the host's time zone shows it, written as
    /// [`DUE_FORMAT`] says. `None` where the calendar does not reach that far.
    ///
    /// Which day and time of day the text names is the zone's to say. For a
    /// deadline at which every zone shows a year from 0 to 9999 there is a
    /// text, and it has the form `YYYY-MM-DD HH:MM:SS`.
    pub fn format_due(&self) -> (due: Option<String>)
        ensures
            match due {
                Some(text) => shows_plain_year(self.deadline) ==> is_date_time_text(text@),
                None => !shows_plain_year(self.deadline),
            },
    {
        local_text(self.deadline, DUE_FORMAT)
    }
}

} // verus!
