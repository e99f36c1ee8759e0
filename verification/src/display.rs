//! The card of a task: what is shown of it, row by row.

use vstd::prelude::*;
use crate::decimal::{signed_number_text, signed_text};
use crate::format::{
    bar_line, bar_segments, card, card_text, duration_line, duration_segments, parts_of,
    plain_duration, row_views, segment, Rows,
};
use crate::paint::{
    flat_text, is_painted, paint, render, segment_views, Look, Segment, SegmentView, Tint,
};
use crate::task::{completion_of, remaining_work, time_left_at, Task, TaskView};

verus! {

/// The colour of the time left: the less there is, the warmer.
pub open spec fn urgency_tint(time_left: i64) -> Tint {
    if time_left >= 7 * 86400 {
        Tint::Blue
    } else if time_left >= 2 * 86400 {
        Tint::Green
    } else if time_left >= 86400 {
        Tint::Yellow
    } else if time_left >= 5 * 3600 {
        Tint::Red
    } else {
        Tint::BrightRed
    }
}

/// The colour in which `time_left` seconds are shown: blue from a week on,
/// green from two days on, yellow from one day on, red from five hours on, and
/// bright red below that.
pub fn urgency(time_left: i64) -> (tint: Tint)
    ensures
        tint == urgency_tint(time_left),
{
    if time_left >= 7 * 86400 {
        Tint::Blue
    } else if time_left >= 2 * 86400 {
        Tint::Green
    } else if time_left >= 86400 {
        Tint::Yellow
    } else if time_left >= 5 * 3600 {
        Tint::Red
    } else {
        Tint::BrightRed
    }
}

/// One row of a card before it is painted.
#[derive(Debug)]
pub struct Row {
    pub label: Segment,
    pub value: Vec<Segment>,
}

/// A [`Row`] with its texts as character sequences.
pub struct RowView {
    pub label: SegmentView,
    pub value: Seq<SegmentView>,
}

impl View for Row {
    type V = RowView;

    open spec fn view(&self) -> RowView {
        RowView { label: self.label@, value: segment_views(self.value@) }
    }
}

/// The views of `rows`, in their order.
pub open spec fn rows_view(rows: Seq<Row>) -> Seq<RowView> {
    rows.map_values(|row: Row| row@)
}

/// The row with the label `label` and the one segment `value`.
pub open spec fn simple_row(label: Seq<char>, value: SegmentView) -> RowView {
    RowView { label: segment(label, Look::BoldRgb(128, 128, 128)), value: seq![value] }
}

/// The rows of the card of `task`, where `time_left` seconds are left to its
/// deadline and `due` is the deadline as the user reads it.
pub open spec fn card_rows(task: TaskView, time_left: i64, due: Seq<char>) -> Seq<RowView> {
    seq![
        simple_row("Name:"@, segment(task.name, Look::Bold)),
        simple_row("Description:"@, segment(task.description, Look::Italic)),
        simple_row("Deadline:"@, segment(due, Look::Tinted(Tint::Rgb(255, 140, 0)))),
        simple_row(
            "Time left:"@,
            segment(
                flat_text(duration_line(parts_of(time_left))),
                Look::Tinted(urgency_tint(time_left)),
            ),
        ),
        RowView {
            label: segment("Time to complete:"@, Look::BoldRgb(128, 128, 128)),
            value: duration_line(parts_of(remaining_work(task))),
        },
        RowView {
            label: segment("Progress:"@, Look::BoldRgb(128, 128, 128)),
            value: bar_line(completion_of(task)),
        },
        simple_row("Id:"@, segment(signed_text(task.id as int), Look::Tinted(Tint::Cyan))),
    ]
}

/// A label of a card.
fn label(text: &str) -> (made: Segment)
    ensures
        made@ == segment(text@, Look::BoldRgb(128, 128, 128)),
{
    Segment { text: text.to_owned(), look: Look::BoldRgb(128, 128, 128) }
}

/// A row with a value of one segment.
fn one_segment_row(name: &str, text: String, look: Look) -> (row: Row)
    ensures
        row@ == simple_row(name@, segment(text@, look)),
{
    let mut value: Vec<Segment> = Vec::new();
    value.push(Segment { text, look });
    assert(segment_views(value@) =~= seq![segment(text@, look)]);
    Row { label: label(name), value }
}

/// The rows of the card of `task`, where `time_left` seconds are left to its
/// deadline and `due` is the deadline as the user reads it.
pub fn task_rows(task: &Task, time_left: i64, due: &str) -> (rows: Vec<Row>)
    ensures
        rows_view(rows@) == card_rows(task@, time_left, due@),
{
    let mut rows: Vec<Row> = Vec::new();
    rows.push(one_segment_row("Name:", task.name.clone(), Look::Bold));
    rows.push(one_segment_row("Description:", task.description.clone(), Look::Italic));
    rows.push(
        one_segment_row("Deadline:", due.to_owned(), Look::Tinted(Tint::Rgb(255, 140, 0))),
    );
    rows.push(
        one_segment_row("Time left:", plain_duration(time_left), Look::Tinted(urgency(time_left))),
    );
    rows.push(
        Row {
            label: label("Time to complete:"),
            value: duration_segments(task.time_to_complete()),
        },
    );
    rows.push(Row { label: label("Progress:"), value: bar_segments(task.get_completion()) });
    rows.push(one_segment_row("Id:", signed_number_text(task.id), Look::Tinted(Tint::Cyan)));
    assert(rows_view(rows@) =~= card_rows(task@, time_left, due@));
    rows
}

/// Whether `painted` are `rows` painted: for each row its label and its
/// value, each painted.
pub open spec fn paints_rows(rows: Seq<RowView>, painted: Rows) -> bool {
    &&& painted.len() == rows.len()
    &&& forall|i: int|
        0 <= i < rows.len() ==> is_painted(seq![(#[trigger] rows[i]).label], painted[i].0)
            && is_painted(rows[i].value, painted[i].1)
}

/// Paints the rows: each label and each value becomes one text.
pub fn paint_rows(rows: &Vec<Row>) -> (strings: Vec<(String, String)>)
    ensures
        paints_rows(rows_view(rows@), row_views(strings@)),
{
    let ghost views = rows_view(rows@);
    let mut strings: Vec<(String, String)> = Vec::new();
    let mut i: usize = 0;
    while i < rows.len()
        invariant
            i <= rows.len(),
            views == rows_view(rows@),
            strings@.len() == i,
            forall|k: int|
                0 <= k < i ==> is_painted(seq![(#[trigger] views[k]).label], strings@[k].0@)
                    && is_painted(views[k].value, strings@[k].1@),
        decreases rows.len() - i,
    {
        let label = paint(rows[i].label.text.as_str(), rows[i].label.look);
        let value = render(&rows[i].value);
        assert(views[i as int].label == (SegmentView {
            text: rows@[i as int].label.text@,
            look: rows@[i as int].label.look,
        }));
        strings.push((label, value));
        i += 1;
    }
    assert(paints_rows(views, row_views(strings@)));
    strings
}

impl Task {
    /// The card of the task as the user sees it at the moment of the call:
    /// the rows of [`task_rows`] for the time that is left by the host's
    /// clock and the deadline as the host's time zone shows it, painted and
    /// framed by [`card`]. Where the calendar does not reach as far as the
    /// deadline, the deadline is shown as its number of seconds.
    pub fn to_string(&self) -> (text: String)
        ensures
            exists|now: i64, due: Seq<char>, painted: Rows|
                #[trigger] paints_rows(card_rows(self@, time_left_at(self@, now), due), painted)
                    && text@ == card_text(painted),
    {
        let time_left = self.get_time_left();
        let due = match self.format_due() {
            Some(text) => text,
            None => signed_number_text(self.deadline),
        };
        let rows = task_rows(self, time_left, due.as_str());
        let strings = paint_rows(&rows);
        let text = card(strings);
        proof {
            let now = choose|now: i64| time_left == #[trigger] time_left_at(self@, now);
            assert(paints_rows(
                card_rows(self@, time_left_at(self@, now), due@),
                row_views(strings@),
            ));
        }
        text
    }
}

} // verus!
