use chrono::{Local, NaiveDate, TimeZone};
use todo_cli::duration::DURATION_PATTERN;
use todo_cli::error::CliError;
use todo_cli::clock::{CalendarDate, ClockTime};
use todo_cli::prompts::{
    choose_due, due_choice_from, due_instant, due_moment, query, revise_due, revise_estimated_time, revise_text, validate_description,
    validate_due, validate_estimated_time, validate_name, DUE_PATTERN, OPTIONAL_DUE_PATTERN,
    TEXT_PATTERN,
};

fn groups(pattern: &str, line: &str) -> Vec<Option<String>> {
    query(pattern, line).unwrap().unwrap()
}

fn local(y: i32, m: u32, d: u32, h: u32, mi: u32, s: u32) -> i64 {
    let naive = NaiveDate::from_ymd_opt(y, m, d).unwrap().and_hms_opt(h, mi, s).unwrap();
    Local.from_local_datetime(&naive).unwrap().timestamp()
}

#[test]
fn query_trims_the_line_and_leaves_out_the_whole_match() {
    let found = groups(DUE_PATTERN, "  2030-01-01 12:00:00\n");
    assert_eq!(found, vec![Some("2030-01-01".to_string()), Some("12:00:00".to_string()), None]);
    let found = groups(DUE_PATTERN, "08:30:00");
    assert_eq!(found, vec![None, None, Some("08:30:00".to_string())]);
    assert_eq!(query(DUE_PATTERN, "tomorrow").unwrap(), None);
    assert_eq!(query(DUE_PATTERN, "").unwrap(), None);
    assert_eq!(groups(OPTIONAL_DUE_PATTERN, ""), vec![None, None, None]);
}

#[test]
fn query_reports_a_pattern_that_does_not_compile() {
    assert!(matches!(query("(", "x"), Err(CliError::InvalidInput(_))));
}

#[test]
fn due_with_date_and_time_is_that_local_instant() {
    let found = groups(DUE_PATTERN, "2030-01-01 12:00:00");
    assert_eq!(validate_due(&found).unwrap(), local(2030, 1, 1, 12, 0, 0));
}

#[test]
fn due_names_what_the_answer_names() {
    let choice = choose_due(&groups(DUE_PATTERN, "2030-02-03")).unwrap();
    let date = choice.date.unwrap();
    assert_eq!((date.year, date.month, date.day), (2030, 2, 3));
    assert!(choice.time.is_none());
    let choice = choose_due(&groups(DUE_PATTERN, "23:59:58")).unwrap();
    let time = choice.time.unwrap();
    assert_eq!((time.hour, time.minute, time.second), (23, 59, 58));
    assert!(choice.date.is_none());
}

#[test]
fn due_with_impossible_parts_is_refused() {
    assert!(matches!(
        validate_due(&groups(DUE_PATTERN, "2030-02-30 12:00:00")),
        Err(CliError::InvalidInput(m)) if m == "Invalid date format"
    ));
    assert!(matches!(
        validate_due(&groups(DUE_PATTERN, "2030-02-03 25:00:00")),
        Err(CliError::InvalidInput(m)) if m == "Invalid time format"
    ));
    assert!(matches!(
        validate_due(&groups(DUE_PATTERN, "99:00:00")),
        Err(CliError::InvalidInput(m)) if m == "Invalid time format"
    ));
}

#[test]
fn due_instant_passes_the_instant_on() {
    assert_eq!(due_instant(Some(5)).unwrap(), 5);
    assert!(matches!(due_instant(None), Err(CliError::InvalidInput(m)) if m == "No such local time"));
}

#[test]
fn estimated_time_is_a_span() {
    assert_eq!(validate_estimated_time(&groups(DURATION_PATTERN, "30m")).unwrap(), 1800);
    assert_eq!(validate_estimated_time(&groups(DURATION_PATTERN, "1h   5s")).unwrap(), 3605);
    assert_eq!(validate_estimated_time(&groups(DURATION_PATTERN, "")).unwrap(), 0);
    assert!(matches!(
        validate_estimated_time(&groups(DURATION_PATTERN, "99999999999999999999m")),
        Err(CliError::Parse(m)) if m == "Invalid minutes"
    ));
    assert!(matches!(
        validate_estimated_time(&groups(DURATION_PATTERN, "1h 99999999999999999999s")),
        Err(CliError::Parse(m)) if m == "Invalid seconds"
    ));
    assert!(matches!(
        validate_estimated_time(&groups(DURATION_PATTERN, "9223372036854775807h")),
        Err(CliError::Parse(m)) if m == "Duration out of range"
    ));
}

#[test]
fn names_and_descriptions_are_not_empty() {
    assert_eq!(validate_name(&groups(TEXT_PATTERN, " buy milk ")).unwrap(), "buy milk");
    assert!(matches!(
        validate_name(&groups(TEXT_PATTERN, "   ")),
        Err(CliError::InvalidInput(m)) if m == "Name cannot be empty"
    ));
    assert!(matches!(
        validate_description(&groups(TEXT_PATTERN, "")),
        Err(CliError::InvalidInput(m)) if m == "Description cannot be empty"
    ));
    assert_eq!(validate_description(&groups(TEXT_PATTERN, "2%")).unwrap(), "2%");
}

#[test]
fn empty_answers_keep_what_is_there() {
    assert_eq!(revise_due(&groups(OPTIONAL_DUE_PATTERN, "")).unwrap(), None);
    assert_eq!(revise_estimated_time(&groups(DURATION_PATTERN, "")).unwrap(), None);
    assert_eq!(revise_text(&groups(TEXT_PATTERN, "")), None);
    assert_eq!(revise_text(&groups(TEXT_PATTERN, "  \t ")), None);
}

#[test]
fn answers_replace_what_is_there() {
    assert_eq!(
        revise_due(&groups(OPTIONAL_DUE_PATTERN, "2031-05-06 07:08:09")).unwrap(),
        Some(local(2031, 5, 6, 7, 8, 9))
    );
    assert_eq!(revise_estimated_time(&groups(DURATION_PATTERN, "45m")).unwrap(), Some(2700));
    assert_eq!(revise_estimated_time(&groups(DURATION_PATTERN, "0s")).unwrap(), Some(0));
    assert_eq!(revise_text(&groups(TEXT_PATTERN, " oat milk ")), Some("oat milk".to_string()));
    assert_eq!(revise_text(&vec![Some("\u{3000}x y\u{a0}".to_string())]), Some("x y".to_string()));
}

#[test]
fn due_choice_reports_the_date_before_the_time() {
    let date = CalendarDate { year: 2030, month: 1, day: 2 };
    let time = ClockTime { hour: 3, minute: 4, second: 5 };
    let choice = due_choice_from(Some(Some(date)), Some(Some(time))).unwrap();
    assert_eq!(choice.date, Some(date));
    assert_eq!(choice.time, Some(time));
    let choice = due_choice_from(None, None).unwrap();
    assert_eq!((choice.date, choice.time), (None, None));
    assert!(matches!(
        due_choice_from(Some(None), Some(None)),
        Err(CliError::InvalidInput(m)) if m == "Invalid date format"
    ));
    assert!(matches!(
        due_choice_from(None, Some(None)),
        Err(CliError::InvalidInput(m)) if m == "Invalid time format"
    ));
}

#[test]
fn due_moment_fills_in_the_present() {
    let today = CalendarDate { year: 2031, month: 2, day: 3 };
    let now = ClockTime { hour: 4, minute: 5, second: 6 };
    let date = CalendarDate { year: 2030, month: 1, day: 2 };
    let time = ClockTime { hour: 23, minute: 59, second: 58 };
    let choice = choose_due(&groups(DUE_PATTERN, "2030-01-02")).unwrap();
    assert_eq!(due_moment(choice, today, now), (date, now));
    let choice = choose_due(&groups(DUE_PATTERN, "23:59:58")).unwrap();
    assert_eq!(due_moment(choice, today, now), (today, time));
    let choice = choose_due(&groups(DUE_PATTERN, "2030-01-02 23:59:58")).unwrap();
    assert_eq!(due_moment(choice, today, now), (date, time));
}

#[test]
fn due_with_a_time_alone_falls_on_the_present_day() {
    let found = groups(DUE_PATTERN, "12:34:56");
    let before = Local::now().date_naive();
    let due = validate_due(&found).unwrap();
    let after = Local::now().date_naive();
    let shown = Local.timestamp_opt(due, 0).unwrap();
    assert_eq!(shown.format("%H:%M:%S").to_string(), "12:34:56");
    assert!(shown.date_naive() == before || shown.date_naive() == after);
}
