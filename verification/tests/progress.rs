use todo_cli::decimal::parse_i64;
use todo_cli::progress::{parse_progress, percent_share};
use todo_cli::task::Task;

fn hour_task() -> Task {
    Task::with_details(0, 0, 0, 3600, "n".to_string(), "d".to_string())
}

#[test]
fn percent_of_an_hour() {
    assert_eq!(parse_progress("50%", &hour_task()).unwrap(), 1800);
    assert_eq!(parse_progress("25%", &hour_task()).unwrap(), 900);
}

#[test]
fn percent_rounds_halves_away_from_zero() {
    assert_eq!(percent_share(50, 1), 1);
    assert_eq!(percent_share(49, 1), 0);
    assert_eq!(percent_share(150, 1), 2);
    assert_eq!(percent_share(-50, 1), -1);
    assert_eq!(percent_share(-149, 1), -1);
    assert_eq!(percent_share(0, 100), 0);
}

#[test]
fn percent_stays_within_range() {
    assert_eq!(percent_share(i64::MAX, i64::MAX), i64::MAX);
    assert_eq!(percent_share(i64::MIN, i64::MAX), i64::MIN);
    assert_eq!(percent_share(i64::MAX, 100), i64::MAX);
}

#[test]
fn durations_add_up() {
    let task = hour_task();
    assert_eq!(parse_progress("2h 30m", &task).unwrap(), 9000);
    assert_eq!(parse_progress("1h1m1s", &task).unwrap(), 3661);
    assert_eq!(parse_progress("15m", &task).unwrap(), 900);
    assert_eq!(parse_progress("7s", &task).unwrap(), 7);
    assert_eq!(parse_progress("", &task).unwrap(), 0);
}

#[test]
fn durations_out_of_order_are_refused() {
    let task = hour_task();
    assert!(parse_progress("30m 2h", &task).is_err());
    assert!(parse_progress("1.5h", &task).is_err());
    assert!(parse_progress("50 %", &task).is_err());
}

#[test]
fn numbers_are_read_as_the_standard_library_reads_them() {
    for text in [
        "0", "7", "007", "+7", "-7", "-0", "9223372036854775807", "9223372036854775808",
        "-9223372036854775808", "-9223372036854775809", "", "+", "-", "1 ", " 1", "1_0", "٣",
        "12a", "--1", "+-1", "99999999999999999999999999999999999999999",
    ] {
        assert_eq!(parse_i64(text), text.parse::<i64>().ok(), "{:?}", text);
    }
}
