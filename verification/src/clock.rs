//! Dates and times of day, and the host's clock and time zone.

use std::fmt::Write;

use chrono::{Datelike, Timelike};
use vstd::prelude::*;
use crate::decimal::is_digit;

verus! {

/// A day of the calendar.
#[derive(Clone, Copy, Debug, PartialEq, Eq, Structural)]
pub struct CalendarDate {
    pub year: i32,
    pub month: u32,
    pub day: u32,
}

/// A time of day, to the second.
#[derive(Clone, Copy, Debug, PartialEq, Eq, Structural)]
pub struct ClockTime {
    pub hour: u32,
    pub minute: u32,
    pub second: u32,
}

/// Year, month and day of the date that `text` spells in the way that
/// `format` describes, as far as it spells one.
pub uninterp spec fn parsed_date(text: Seq<char>, format: Seq<char>) -> Option<(i32, u32, u32)>;

/// Hour, minute and second of the time of day that `text` spells in the way
/// that `format` describes, as far as it spells one.
pub uninterp spec fn parsed_time(text: Seq<char>, format: Seq<char>) -> Option<(u32, u32, u32)>;

/// The date in `text`: `chrono::NaiveDate::parse_from_str`. The answer
/// depends on the text and the format alone; it is named, not stated.
#[verifier::external_body]
pub(crate) fn parse_date(text: &str, format: &str) -> (date: Option<CalendarDate>)
    ensures
        match date {
            Some(d) => parsed_date(text@, format@) == Some((d.year, d.month, d.day)),
            None => parsed_date(text@, format@) is None,
        },
{
    chrono::NaiveDate::parse_from_str(text, format).ok().map(
        |d| CalendarDate { year: d.year(), month: d.month(), day: d.day() },
    )
}

/// The time of day in `text`: `chrono::NaiveTime::parse_from_str`. The answer
/// depends on the text and the format alone; it is named, not stated.
#[verifier::external_body]
pub(crate) fn parse_time(text: &str, format: &str) -> (time: Option<ClockTime>)
    ensures
        match time {
            Some(t) => parsed_time(text@, format@) == Some((t.hour, t.minute, t.second)),
            None => parsed_time(text@, format@) is None,
        },
{
    chrono::NaiveTime::parse_from_str(text, format).ok().map(
        |t| ClockTime { hour: t.hour(), minute: t.minute(), second: t.second() },
    )
}

/// The seconds since the Unix epoch at the moment of the call, from
/// `chrono::Local::now`. Nothing is promised of the number. (chrono gives up
/// where the host's clock stands before 1970.)
#[verifier::external_body]
pub(crate) fn unix_now() -> i64 {
    chrono::Local::now().timestamp()
}

/// The date of the moment of the call in the host's time zone, from
/// `chrono::Local::now`. Nothing is promised of it.
#[verifier::external_body]
pub(crate) fn today() -> CalendarDate {
    let date = chrono::Local::now().date_naive();
    CalendarDate { year: date.year(), month: date.month(), day: date.day() }
}

/// The time of day of the moment of the call in the host's time zone, from
/// `chrono::Local::now`. Nothing is promised of it.
#[verifier::external_body]
pub(crate) fn time_now() -> ClockTime {
    let time = chrono::Local::now().time();
    ClockTime { hour: time.hour(), minute: time.minute(), second: time.second() }
}

/// The seconds since the Unix epoch at which the host's time zone shows `date`
/// and `time`, from `chrono::NaiveDateTime::and_local_timezone`; `None` where
/// there is no such day or time, or the zone shows them never or twice. The
/// answer depends on the host's time zone: nothing is promised of it.
#[verifier::external_body]
pub(crate) fn local_timestamp(date: CalendarDate, time: ClockTime) -> Option<i64> {
    let day = chrono::NaiveDate::from_ymd_opt(date.year, date.month, date.day)?;
    let at = chrono::NaiveTime::from_hms_opt(time.hour, time.minute, time.second)?;
    chrono::NaiveDateTime::new(day, at).and_local_timezone(chrono::Local).single().map(
        |moment| moment.timestamp(),
    )
}

/// One day after the start of the year 0 at Greenwich, in seconds since the
/// Unix epoch. No time zone is a day or more off Greenwich, so from this
/// instant on every zone shows a year from 0 on.
pub const FIRST_PLAIN_INSTANT: i64 = -62_167_132_800;

/// One day before the last second of the year 9999 at Greenwich, in seconds
/// since the Unix epoch: up to this instant every zone shows a year up to 9999.
pub const LAST_PLAIN_INSTANT: i64 = 253_402_214_399;

/// Whether every time zone shows a year from 0 to 9999 at the instant
/// `timestamp` seconds after the Unix epoch: a year of four digits and no sign.
pub open spec fn shows_plain_year(timestamp: i64) -> bool {
    FIRST_PLAIN_INSTANT <= timestamp <= LAST_PLAIN_INSTANT
}

/// Whether `format` asks for year, month, day, hour, minute and second as
/// numbers: the date with hyphens, a space, the time of day with colons.
pub open spec fn is_date_time_format(format: Seq<char>) -> bool {
    format == "%Y-%m-%d %H:%M:%S"@
}

/// Whether a hyphen, the space or a colon stands at `i` in a text of the form
/// `YYYY-MM-DD HH:MM:SS`.
pub open spec fn is_mark_place(i: int) -> bool {
    i == 4 || i == 7 || i == 10 || i == 13 || i == 16
}

/// Whether `text` has the form `YYYY-MM-DD HH:MM:SS`: nineteen characters,
/// which are digits but for the two hyphens, the space and the two colons in
/// their places.
pub open spec fn is_date_time_text(text: Seq<char>) -> bool {
    &&& text.len() == 19
    &&& text[4] == '-'
    &&& text[7] == '-'
    &&& text[10] == ' '
    &&& text[13] == ':'
    &&& text[16] == ':'
    &&& forall|i: int| 0 <= i < 19 && !is_mark_place(i) ==> is_digit(#[trigger] text[i])
}

/// The moment `timestamp` seconds after the Unix epoch as the host's time zone
/// shows it, written in the way that `format` describes, from
/// `chrono::TimeZone::timestamp_opt` and `DateTime::format`; `None` where
/// chrono has no date for the moment or cannot write it so.
///
/// Which day and which time of day the text names depends on the host's time
/// zone: nothing is promised of that. Its form does not depend on the zone.
/// For the format `%Y-%m-%d %H:%M:%S`, chrono's table of specifiers gives the
/// year zero-padded to four digits, with no sign from the year 0 to the year
/// 9999, and each of the five other numbers zero-padded to two digits; and
/// chrono has a date for every moment in those years. So for that format, at a
/// moment at which every zone shows such a year, there is a text, and it has
/// the form `YYYY-MM-DD HH:MM:SS`.
#[verifier::external_body]
pub(crate) fn local_text(timestamp: i64, format: &str) -> (shown: Option<String>)
    ensures
        match shown {
            Some(written) => is_date_time_format(format@) && shows_plain_year(timestamp)
                ==> is_date_time_text(written@),
            None => !(is_date_time_format(format@) && shows_plain_year(timestamp)),
        },
{
    let moment = chrono::TimeZone::timestamp_opt(&chrono::Local, timestamp, 0).single()?;
    let mut text = String::new();
    write!(text, "{}", moment.format(format)).ok()?;
    Some(text)
}

} // verus!
