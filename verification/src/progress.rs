//! Amounts of progress as the user writes them: a span of time, or a share of
//! the estimated time in percent.

use vstd::prelude::*;
use crate::decimal::{parse_i64, parsed_i64};
use crate::duration::{duration_of, duration_seconds, DURATION_PATTERN};
use crate::error::{outcome, CliError, CliErrorView};
use crate::pattern::{captures, group, group_at, regex_captures, Groups};
use crate::task::{clamp_i64, Task};

verus! {

/// The form of a share: digits and a percent sign. Its one group is the digits.
pub const PERCENT_PATTERN: &'static str = r"^(\d+)%$";

/// `numerator / 100`, rounded to the nearest whole number, halves away from
/// zero.
pub open spec fn round_hundredths(numerator: int) -> int {
    if numerator >= 0 {
        (numerator + 50) / 100
    } else {
        -((-numerator + 50) / 100)
    }
}

/// `percent` hundredths of `estimated_time`, rounded, in seconds.
pub open spec fn share_of(estimated_time: i64, percent: i64) -> i64 {
    clamp_i64(round_hundredths(estimated_time * percent))
}

/// The seconds that the groups of a match of [`PERCENT_PATTERN`] stand for with
/// a task of `estimated_time`.
pub open spec fn percent_of(groups: Groups, estimated_time: i64) -> Result<i64, CliErrorView> {
    match group(groups, 0) {
        None => Err(CliErrorView::Parse("Invalid percentage"@)),
        Some(text) => match parsed_i64(text) {
            None => Err(CliErrorView::Parse("Invalid percentage"@)),
            Some(percent) => Ok(share_of(estimated_time, percent)),
        },
    }
}

/// The seconds that an amount stands for, from what the two patterns made of
/// it: a span of time where it has that form, else a share where it has that
/// one, else an error.
pub open spec fn amount_of(
    duration: Result<Option<Groups>, Seq<char>>,
    percent: Result<Option<Groups>, Seq<char>>,
    estimated_time: i64,
) -> Result<i64, CliErrorView> {
    match (duration, percent) {
        (Err(message), _) => Err(CliErrorView::InvalidInput(message)),
        (Ok(_), Err(message)) => Err(CliErrorView::InvalidInput(message)),
        (Ok(Some(groups)), Ok(_)) => duration_of(groups),
        (Ok(None), Ok(Some(groups))) => percent_of(groups, estimated_time),
        (Ok(None), Ok(None)) => Err(CliErrorView::InvalidInput("Invalid progress format"@)),
    }
}

/// What a pattern made of a line, as sequences.
pub open spec fn captured(r: Result<Option<Vec<Option<String>>>, String>) -> Result<
    Option<Groups>,
    Seq<char>,
> {
    match r {
        Ok(groups) => Ok(groups.deep_view()),
        Err(message) => Err(message@),
    }
}

/// `percent` hundredths of `estimated_time`, rounded to the nearest second,
/// halves away from zero, and kept within the signed 64-bit numbers.
pub fn percent_share(estimated_time: i64, percent: i64) -> (seconds: i64)
    ensures
        seconds == share_of(estimated_time, percent),
{
    let negative = (estimated_time < 0) != (percent < 0);
    let a: u128 = magnitude(estimated_time);
    let b: u128 = magnitude(percent);
    assert(a * b <= 0x8000_0000_0000_0000 * 0x8000_0000_0000_0000) by (nonlinear_arith)
        requires
            a <= 0x8000_0000_0000_0000,
            b <= 0x8000_0000_0000_0000,
    ;
    let product: u128 = a * b;
    let rounded: u128 = (product + 50) / 100;
    proof {
        let x = estimated_time as int;
        let y = percent as int;
        let p = (a * b) as int;
        assert(x * y == if negative {
            -p
        } else {
            p
        }) by (nonlinear_arith)
            requires
                a == if x < 0 {
                    -x
                } else {
                    x
                },
                b == if y < 0 {
                    -y
                } else {
                    y
                },
                negative == ((x < 0) != (y < 0)),
                p == a * b,
        ;
    }
    if negative {
        if rounded >= 0x8000_0000_0000_0000 {
            i64::MIN
        } else {
            -(rounded as i64)
        }
    } else if rounded > 0x7fff_ffff_ffff_ffff {
        i64::MAX
    } else {
        rounded as i64
    }
}

/// The size of `value` without its sign.
pub fn magnitude(value: i64) -> (size: u128)
    ensures
        size == if value < 0 {
            -value
        } else {
            value as int
        },
        size <= 0x8000_0000_0000_0000,
{
    if value < 0 {
        (-(value as i128)) as u128
    } else {
        value as u128
    }
}

/// The seconds that the groups of a match of [`PERCENT_PATTERN`] stand for with
/// a task of `estimated_time`.
pub fn percent_seconds(groups: &Vec<Option<String>>, estimated_time: i64) -> (r: Result<
    i64,
    CliError,
>)
    ensures
        outcome(r) == percent_of(groups.deep_view(), estimated_time),
{
    let text = match group_at(groups, 0) {
        Some(text) => text,
        None => return Err(CliError::parse("Invalid percentage")),
    };
    match parse_i64(text.as_str()) {
        Some(percent) => Ok(percent_share(estimated_time, percent)),
        None => Err(CliError::parse("Invalid percentage")),
    }
}

/// The seconds that an amount stands for, given what [`DURATION_PATTERN`] and
/// [`PERCENT_PATTERN`] made of it.
pub fn progress_from_captures(
    duration: Result<Option<Vec<Option<String>>>, String>,
    percent: Result<Option<Vec<Option<String>>>, String>,
    estimated_time: i64,
) -> (r: Result<i64, CliError>)
    ensures
        outcome(r) == amount_of(captured(duration), captured(percent), estimated_time),
{
    let duration = match duration {
        Ok(found) => found,
        Err(message) => return Err(CliError::InvalidInput(message)),
    };
    let percent = match percent {
        Ok(found) => found,
        Err(message) => return Err(CliError::InvalidInput(message)),
    };
    match duration {
        Some(groups) => duration_seconds(&groups),
        None => match percent {
            Some(groups) => percent_seconds(&groups, estimated_time),
            None => Err(CliError::input("Invalid progress format")),
        },
    }
}

/// The seconds of progress that `input` stands for with `task`.
///
/// The input is held against [`DURATION_PATTERN`] and [`PERCENT_PATTERN`]; what
/// follows from their answers is what [`progress_from_captures`] states.
pub fn parse_progress(input: &str, task: &Task) -> (r: Result<i64, CliError>)
    ensures
        outcome(r) == amount_of(
            regex_captures(DURATION_PATTERN@, input@),
            regex_captures(PERCENT_PATTERN@, input@),
            task.estimated_time,
        ),
{
    let duration = captures(DURATION_PATTERN, input);
    let percent = captures(PERCENT_PATTERN, input);
    progress_from_captures(duration, percent, task.estimated_time)
}

} // verus!
