//! The answers to the questions that `add` and `edit` put to the user.
//!
//! A question is put until its answer is accepted. One round is [`query`]: the
//! line is trimmed and held against the pattern of the question. Where the
//! pattern matches, the groups go to the question's validator, which gives
//! the value or says why the answer will not do.

use vstd::prelude::*;
use crate::clock::{
    local_timestamp, parse_date, parse_time, parsed_date, parsed_time, time_now, today,
    CalendarDate, ClockTime,
};
use crate::duration::{duration_of, duration_seconds};
use crate::error::{outcome, CliError, CliErrorView};
use crate::pattern::{
    all_groups_absent, captures, group, group_at, no_group, regex_captures, Groups,
};
use crate::text::{is_blank, trim, trimmed};

verus! {

/// The form of a due date on `add`: a date, a date and a time of day, or a time
/// of day. Its groups are the date, the time behind a date, and the time that
/// stands alone.
pub const DUE_PATTERN: &'static str =
    r"^(?:(\d{4}-\d{2}-\d{2})(?: (\d{2}:\d{2}:\d{2}))?|(\d{2}:\d{2}:\d{2}))$";

/// The form of a due date on `edit`: as on `add`, or nothing at all.
pub const OPTIONAL_DUE_PATTERN: &'static str =
    r"^(?:(\d{4}-\d{2}-\d{2})(?: (\d{2}:\d{2}:\d{2}))?|(\d{2}:\d{2}:\d{2}))?$";

/// How a date is written.
pub const DATE_FORMAT: &'static str = "%Y-%m-%d";

/// How a time of day is written.
pub const TIME_FORMAT: &'static str = "%H:%M:%S";

/// The form of a name or a description: any text. Its one group is the text.
pub const TEXT_PATTERN: &'static str = r"(.*)";

/// What the user is told where an answer has not the form asked for.
pub const FORMAT_HINT: &'static str = "Invalid input format, please try again";

/// One round of a question: the groups that `pattern` finds in the trimmed
/// line, or `None` where the line has not the form asked for. An error ends the
/// questioning: the pattern itself is at fault.
pub fn query(pattern: &str, line: &str) -> (r: Result<Option<Vec<Option<String>>>, CliError>)
    ensures
        match r {
            Ok(found) => regex_captures(pattern@, trimmed(line@)) == Ok::<_, Seq<char>>(
                found.deep_view(),
            ),
            Err(e) => regex_captures(pattern@, trimmed(line@)) matches Err(message) && e@
                == CliErrorView::InvalidInput(message),
        },
{
    match captures(pattern, trim(line)) {
        Ok(found) => Ok(found),
        Err(message) => Err(CliError::InvalidInput(message)),
    }
}

/// The date and the time of day that an answer names. What it does not name is
/// `None` and stands for the present day, or the present time of day.
#[derive(Clone, Copy, Debug, PartialEq, Eq, Structural)]
pub struct DueChoice {
    pub date: Option<CalendarDate>,
    pub time: Option<ClockTime>,
}

/// The text of the time of day in the groups of a due date: behind the date, or
/// alone.
pub open spec fn time_group(groups: Groups) -> Option<Seq<char>> {
    match group(groups, 1) {
        Some(text) => Some(text),
        None => group(groups, 2),
    }
}

/// Whether `choice` names the date and the time with these numbers.
pub open spec fn names(
    choice: DueChoice,
    date: Option<(i32, u32, u32)>,
    time: Option<(u32, u32, u32)>,
) -> bool {
    &&& match choice.date {
        Some(d) => date == Some((d.year, d.month, d.day)),
        None => date is None,
    }
    &&& match choice.time {
        Some(t) => time == Some((t.hour, t.minute, t.second)),
        None => time is None,
    }
}

/// The fault in the groups of a due date, if there is one: a date that is none,
/// or else a time of day that is none.
pub open spec fn due_fault(groups: Groups) -> Option<CliErrorView> {
    if group(groups, 0) matches Some(text) && parsed_date(text, DATE_FORMAT@) is None {
        Some(CliErrorView::InvalidInput("Invalid date format"@))
    } else if time_group(groups) matches Some(text) && parsed_time(text, TIME_FORMAT@) is None {
        Some(CliErrorView::InvalidInput("Invalid time format"@))
    } else {
        None
    }
}

/// The date that the groups of a due date name, where they name one.
pub open spec fn due_date(groups: Groups) -> Option<(i32, u32, u32)> {
    match group(groups, 0) {
        Some(text) => parsed_date(text, DATE_FORMAT@),
        None => None,
    }
}

/// The time of day that the groups of a due date name, where they name one.
pub open spec fn due_time(groups: Groups) -> Option<(u32, u32, u32)> {
    match time_group(groups) {
        Some(text) => parsed_time(text, TIME_FORMAT@),
        None => None,
    }
}

/// What is made of the date and the time of day that were read from an answer.
/// `None` stands for a part that the answer does not name, `Some(None)` for one
/// that it names and that is none.
pub open spec fn choice_of(
    date: Option<Option<CalendarDate>>,
    time: Option<Option<ClockTime>>,
) -> Result<DueChoice, CliErrorView> {
    if date == Some(None::<CalendarDate>) {
        Err(CliErrorView::InvalidInput("Invalid date format"@))
    } else if time == Some(None::<ClockTime>) {
        Err(CliErrorView::InvalidInput("Invalid time format"@))
    } else {
        Ok(
            DueChoice {
                date: match date {
                    Some(found) => found,
                    None => None,
                },
                time: match time {
                    Some(found) => found,
                    None => None,
                },
            },
        )
    }
}

/// The choice from the date and the time of day that were read from an answer:
/// an error where one of them was named and is none, the date first.
pub fn due_choice_from(date: Option<Option<CalendarDate>>, time: Option<Option<ClockTime>>) -> (r:
    Result<DueChoice, CliError>)
    ensures
        outcome(r) == choice_of(date, time),
{
    let date = match date {
        Some(None) => return Err(CliError::input("Invalid date format")),
        Some(found) => found,
        None => None,
    };
    let time = match time {
        Some(None) => return Err(CliError::input("Invalid time format")),
        Some(found) => found,
        None => None,
    };
    Ok(DueChoice { date, time })
}

/// Reads the date and the time of day from the groups of a due date.
///
/// The texts are read by the calendar; [`due_choice_from`] states what is made
/// of what it finds.
pub fn choose_due(groups: &Vec<Option<String>>) -> (r: Result<DueChoice, CliError>)
    ensures
        match r {
            Ok(choice) => due_fault(groups.deep_view()) is None && names(
                choice,
                due_date(groups.deep_view()),
                due_time(groups.deep_view()),
            ),
            Err(e) => due_fault(groups.deep_view()) == Some(e@),
        },
{
    let date = match group_at(groups, 0) {
        Some(text) => Some(parse_date(text.as_str(), DATE_FORMAT)),
        None => None,
    };
    let time_text = match group_at(groups, 1) {
        Some(text) => Some(text),
        None => group_at(groups, 2),
    };
    let time = match time_text {
        Some(text) => Some(parse_time(text.as_str(), TIME_FORMAT)),
        None => None,
    };
    due_choice_from(date, time)
}

/// The deadline from what the host's time zone made of a date and a time of
/// day: the instant, or the error where the zone has no one such instant.
pub fn due_instant(instant: Option<i64>) -> (r: Result<i64, CliError>)
    ensures
        outcome(r) == match instant {
            Some(seconds) => Ok::<i64, CliErrorView>(seconds),
            None => Err::<i64, _>(CliErrorView::InvalidInput("No such local time"@)),
        },
{
    match instant {
        Some(seconds) => Ok(seconds),
        None => Err(CliError::input("No such local time")),
    }
}

/// The day and the time of day that `choice` stands for on the day `today` at
/// the time of day `now`: what it names, and the present for what it leaves
/// open.
pub fn due_moment(choice: DueChoice, today: CalendarDate, now: ClockTime) -> (moment: (
    CalendarDate,
    ClockTime,
))
    ensures
        moment.0 == match choice.date {
            Some(date) => date,
            None => today,
        },
        moment.1 == match choice.time {
            Some(time) => time,
            None => now,
        },
{
    let date = match choice.date {
        Some(date) => date,
        None => today,
    };
    let time = match choice.time {
        Some(time) => time,
        None => now,
    };
    (date, time)
}

/// The deadline that `choice` stands for: the instant at which the host's time
/// zone shows the date and the time of day, with the present day and the
/// present time of day for what the choice leaves open.
///
/// The present comes from the host's clock and the instant from its time zone;
/// [`due_moment`] states what is asked of the zone and [`due_instant`] what is
/// made of its answer.
pub fn resolve_due(choice: DueChoice) -> (r: Result<i64, CliError>)
    ensures
        r matches Err(e) ==> e@ == CliErrorView::InvalidInput("No such local time"@),
{
    let (date, time) = due_moment(choice, today(), time_now());
    due_instant(local_timestamp(date, time))
}

/// The deadline in the groups of a due date.
///
/// Fails with the fault of the groups where they have one; else [`resolve_due`]
/// decides.
pub fn validate_due(groups: &Vec<Option<String>>) -> (r: Result<i64, CliError>)
    ensures
        due_fault(groups.deep_view()) matches Some(fault) ==> outcome(r) == Err::<i64, _>(fault),
        due_fault(groups.deep_view()) is None ==> (r matches Err(e) ==> e@
            == CliErrorView::InvalidInput("No such local time"@)),
{
    match choose_due(groups) {
        Ok(choice) => resolve_due(choice),
        Err(e) => Err(e),
    }
}

/// The estimated time in the groups of a span of time.
pub fn validate_estimated_time(groups: &Vec<Option<String>>) -> (r: Result<i64, CliError>)
    ensures
        outcome(r) == duration_of(groups.deep_view()),
{
    duration_seconds(groups)
}

/// The text that an answer gives, or the error with `complaint` where it gives
/// none: a name and a description are not empty.
pub open spec fn text_of(groups: Groups, complaint: Seq<char>) -> Result<Seq<char>, CliErrorView> {
    match group(groups, 0) {
        Some(text) => if trimmed(text).len() == 0 {
            Err(CliErrorView::InvalidInput(complaint))
        } else {
            Ok(text)
        },
        None => Err(CliErrorView::InvalidInput(complaint)),
    }
}

/// The text that an answer gives, which must not be empty.
pub fn validate_text(groups: &Vec<Option<String>>, complaint: &str) -> (r: Result<
    String,
    CliError,
>)
    ensures
        match r {
            Ok(text) => text_of(groups.deep_view(), complaint@) == Ok::<_, CliErrorView>(text@),
            Err(e) => text_of(groups.deep_view(), complaint@) == Err::<Seq<char>, _>(e@),
        },
{
    match group_at(groups, 0) {
        Some(text) => if is_blank(text.as_str()) {
            Err(CliError::input(complaint))
        } else {
            Ok(text.clone())
        },
        None => Err(CliError::input(complaint)),
    }
}

/// The name of a task to be added.
pub fn validate_name(groups: &Vec<Option<String>>) -> (r: Result<String, CliError>)
    ensures
        match r {
            Ok(text) => text_of(groups.deep_view(), "Name cannot be empty"@) == Ok::<
                _,
                CliErrorView,
            >(text@),
            Err(e) => text_of(groups.deep_view(), "Name cannot be empty"@) == Err::<Seq<char>, _>(
                e@,
            ),
        },
{
    validate_text(groups, "Name cannot be empty")
}

/// The description of a task to be added.
pub fn validate_description(groups: &Vec<Option<String>>) -> (r: Result<String, CliError>)
    ensures
        match r {
            Ok(text) => text_of(groups.deep_view(), "Description cannot be empty"@) == Ok::<
                _,
                CliErrorView,
            >(text@),
            Err(e) => text_of(groups.deep_view(), "Description cannot be empty"@) == Err::<
                Seq<char>,
                _,
            >(e@),
        },
{
    validate_text(groups, "Description cannot be empty")
}

/// The deadline that an edit sets: `None`, to keep the deadline, where the
/// answer is empty.
pub fn revise_due(groups: &Vec<Option<String>>) -> (r: Result<Option<i64>, CliError>)
    ensures
        no_group(groups.deep_view()) ==> r matches Ok(None),
        !no_group(groups.deep_view()) ==> {
            &&& r matches Ok(kept) ==> kept is Some
            &&& due_fault(groups.deep_view()) matches Some(fault) ==> r matches Err(e) && e@
                == fault
            &&& due_fault(groups.deep_view()) is None ==> (r matches Err(e) ==> e@
                == CliErrorView::InvalidInput("No such local time"@))
        },
{
    if all_groups_absent(groups) {
        return Ok(None);
    }
    match validate_due(groups) {
        Ok(deadline) => Ok(Some(deadline)),
        Err(e) => Err(e),
    }
}

/// The estimated time that an edit sets.
pub open spec fn revised_duration(groups: Groups) -> Result<Option<i64>, CliErrorView> {
    if no_group(groups) {
        Ok(None)
    } else {
        match duration_of(groups) {
            Ok(seconds) => Ok(Some(seconds)),
            Err(e) => Err(e),
        }
    }
}

/// The estimated time that an edit sets: `None`, to keep the estimated time,
/// where the answer is empty.
pub fn revise_estimated_time(groups: &Vec<Option<String>>) -> (r: Result<Option<i64>, CliError>)
    ensures
        outcome(r) == revised_duration(groups.deep_view()),
{
    if all_groups_absent(groups) {
        return Ok(None);
    }
    match duration_seconds(groups) {
        Ok(seconds) => Ok(Some(seconds)),
        Err(e) => Err(e),
    }
}

/// The text that an edit sets: the answer without the white space around it.
pub open spec fn revised_text(groups: Groups) -> Option<Seq<char>> {
    match group(groups, 0) {
        Some(text) => if trimmed(text).len() == 0 {
            None
        } else {
            Some(trimmed(text))
        },
        None => None,
    }
}

/// The name or the description that an edit sets: `None`, to keep the text,
/// where the answer is empty.
pub fn revise_text(groups: &Vec<Option<String>>) -> (r: Option<String>)
    ensures
        r.deep_view() == revised_text(groups.deep_view()),
{
    match group_at(groups, 0) {
        Some(text) => if is_blank(text.as_str()) {
            None
        } else {
            Some(trim(text.as_str()).to_owned())
        },
        None => None,
    }
}

} // verus!
