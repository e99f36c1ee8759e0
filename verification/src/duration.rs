//! Spans of time written as hours, minutes and seconds.

use vstd::prelude::*;
use crate::decimal::{parse_i64, parsed_i64};
use crate::error::{outcome, CliError, CliErrorView};
use crate::pattern::{group, group_at, Groups};

verus! {

/// The form of a span of time: `Nh`, `Nm` and `Ns` in this order, each of them
/// optional, with white space allowed behind the hours and the minutes. Its
/// three groups are the digits of the hours, the minutes and the seconds.
pub const DURATION_PATTERN: &'static str = r"^(?:(\d+)h\s*)?(?:(\d+)m\s*)?(?:(\d+)s)?$";

/// The number in group `i`: 0 where the group is absent, `None` where its text
/// spells no signed 64-bit number.
pub open spec fn component(groups: Groups, i: int) -> Option<i64> {
    match group(groups, i) {
        None => Some(0i64),
        Some(text) => parsed_i64(text),
    }
}

/// The seconds in `hours`, `minutes` and `seconds` together.
pub open spec fn total_seconds(hours: i64, minutes: i64, seconds: i64) -> int {
    hours * 3600 + minutes * 60 + seconds
}

/// The span of time, in seconds, that the groups of a match of
/// [`DURATION_PATTERN`] stand for, or the error that they give: the first
/// component that is no number, or a total that no signed 64-bit number holds.
pub open spec fn duration_of(groups: Groups) -> Result<i64, CliErrorView> {
    match component(groups, 0) {
        None => Err(CliErrorView::Parse("Invalid hours"@)),
        Some(hours) => match component(groups, 1) {
            None => Err(CliErrorView::Parse("Invalid minutes"@)),
            Some(minutes) => match component(groups, 2) {
                None => Err(CliErrorView::Parse("Invalid seconds"@)),
                Some(seconds) => {
                    let total = total_seconds(hours, minutes, seconds);
                    if i64::MIN <= total <= i64::MAX {
                        Ok(total as i64)
                    } else {
                        Err(CliErrorView::Parse("Duration out of range"@))
                    }
                },
            },
        },
    }
}

/// The number in group `i`.
pub fn read_component(groups: &Vec<Option<String>>, i: usize) -> (value: Option<i64>)
    ensures
        value == component(groups.deep_view(), i as int),
{
    match group_at(groups, i) {
        None => Some(0),
        Some(text) => parse_i64(text.as_str()),
    }
}

/// The span of time, in seconds, that the groups of a match of
/// [`DURATION_PATTERN`] stand for.
pub fn duration_seconds(groups: &Vec<Option<String>>) -> (r: Result<i64, CliError>)
    ensures
        outcome(r) == duration_of(groups.deep_view()),
{
    let hours = match read_component(groups, 0) {
        Some(value) => value,
        None => return Err(CliError::parse("Invalid hours")),
    };
    let minutes = match read_component(groups, 1) {
        Some(value) => value,
        None => return Err(CliError::parse("Invalid minutes")),
    };
    let seconds = match read_component(groups, 2) {
        Some(value) => value,
        None => return Err(CliError::parse("Invalid seconds")),
    };
    let total: i128 = hours as i128 * 3600 + minutes as i128 * 60 + seconds as i128;
    if total < i64::MIN as i128 || total > i64::MAX as i128 {
        return Err(CliError::parse("Duration out of range"));
    }
    Ok(total as i64)
}

} // verus!
