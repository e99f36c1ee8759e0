use chrono::{Local, NaiveDate, TimeZone};
use todo_cli::clock::{FIRST_PLAIN_INSTANT, LAST_PLAIN_INSTANT};
use todo_cli::decimal::{number_text, signed_number_text};
use todo_cli::task::{clamp, Fraction, Task};

fn task(progress: i64, deadline: i64, estimated_time: i64) -> Task {
    Task::with_details(1, progress, deadline, estimated_time, "n".to_string(), "d".to_string())
}

#[test]
fn new_task_is_empty() {
    let t = Task::new();
    assert_eq!((t.id(), t.progress, t.deadline, t.estimated_time), (0, 0, 0, 0));
    assert_eq!(t.name, "");
    assert_eq!(t.description, "");
    let t = Task::with_id(9);
    assert_eq!((t.id(), t.progress, t.deadline, t.estimated_time), (9, 0, 0, 0));
}

#[test]
fn completion_is_progress_over_estimate() {
    assert_eq!(task(900, 0, 1800).get_completion(), Fraction { numerator: 900, denominator: 1800 });
    assert_eq!(task(5, 0, 0).get_completion(), Fraction { numerator: 1, denominator: 1 });
    assert_eq!(task(5, 0, -3).get_completion(), Fraction { numerator: 1, denominator: 1 });
}

#[test]
fn time_to_deadline_may_be_negative() {
    assert_eq!(task(0, 100, 1).time_to_deadline(40), 60);
    assert_eq!(task(0, 100, 1).time_to_deadline(140), -40);
    assert_eq!(task(0, i64::MAX, 1).time_to_deadline(-1), i64::MAX);
    assert_eq!(task(0, i64::MIN, 1).time_to_deadline(1), i64::MIN);
}

#[test]
fn time_left_follows_the_clock() {
    let left = task(0, 4_102_444_800, 1).get_time_left();
    assert!(left < 4_102_444_800 - 1_700_000_000);
}

#[test]
fn time_to_complete_is_never_negative() {
    assert_eq!(task(900, 0, 1800).time_to_complete(), 900);
    assert_eq!(task(1800, 0, 1800).time_to_complete(), 0);
    assert_eq!(task(5000, 0, 1800).time_to_complete(), 0);
    assert_eq!(task(i64::MIN, 0, i64::MAX).time_to_complete(), i64::MAX);
}

#[test]
fn due_is_written_in_local_time() {
    let expected =
        Local.timestamp_opt(1_893_499_200, 0).unwrap().format("%Y-%m-%d %H:%M:%S").to_string();
    assert_eq!(task(0, 1_893_499_200, 1).format_due(), Some(expected));
    assert_eq!(task(0, i64::MAX, 1).format_due(), None);
}

#[test]
fn clamp_keeps_what_fits() {
    assert_eq!(clamp(5), 5);
    assert_eq!(clamp(i64::MAX as i128 + 1), i64::MAX);
    assert_eq!(clamp(i64::MIN as i128 - 1), i64::MIN);
}

#[test]
fn numbers_are_written_as_the_standard_library_writes_them() {
    for n in [0u64, 7, 10, 99, 100, 1234567890, u64::MAX] {
        assert_eq!(number_text(n), n.to_string());
    }
    for x in [0i64, -1, 1, -10, i64::MIN, i64::MAX] {
        assert_eq!(signed_number_text(x), x.to_string());
    }
}

fn has_due_form(text: &str) -> bool {
    let chars: Vec<char> = text.chars().collect();
    chars.len() == 19
        && chars.iter().enumerate().all(|(i, c)| match i {
            4 | 7 => *c == '-',
            10 => *c == ' ',
            13 | 16 => *c == ':',
            _ => c.is_ascii_digit(),
        })
}

#[test]
fn plain_years_run_from_0_to_9999_less_a_day_at_each_end() {
    let first = NaiveDate::from_ymd_opt(0, 1, 1).unwrap().and_hms_opt(0, 0, 0).unwrap();
    let last = NaiveDate::from_ymd_opt(9999, 12, 31).unwrap().and_hms_opt(23, 59, 59).unwrap();
    assert_eq!(FIRST_PLAIN_INSTANT, first.and_utc().timestamp() + 86_400);
    assert_eq!(LAST_PLAIN_INSTANT, last.and_utc().timestamp() - 86_400);
}

#[test]
fn due_in_plain_years_has_the_form_of_a_date_and_a_time() {
    for deadline in [
        FIRST_PLAIN_INSTANT,
        FIRST_PLAIN_INSTANT + 1,
        -62_135_596_800,
        -2_208_988_800,
        -1,
        0,
        951_782_399,
        1_893_499_200,
        4_102_444_800,
        LAST_PLAIN_INSTANT - 1,
        LAST_PLAIN_INSTANT,
    ] {
        let due = task(0, deadline, 1).format_due().unwrap();
        assert!(has_due_form(&due), "{} {:?}", deadline, due);
        let by_hand =
            Local.timestamp_opt(deadline, 0).unwrap().format("%Y-%m-%d %H:%M:%S").to_string();
        assert_eq!(due, by_hand);
    }
}

#[test]
fn due_beyond_plain_years_carries_a_sign() {
    let late = task(0, LAST_PLAIN_INSTANT + 3 * 86_400, 1).format_due().unwrap();
    assert!(late.starts_with("+10000-01-0"), "{:?}", late);
    assert!(!has_due_form(&late));
    let early = task(0, FIRST_PLAIN_INSTANT - 3 * 86_400, 1).format_due().unwrap();
    assert!(early.starts_with("-0001-12-"), "{:?}", early);
    assert!(!has_due_form(&early));
}
