use colored::Colorize;
use todo_cli::display::{task_rows, urgency};
use todo_cli::format::{
    bar_segments, card, count_cells, duration_segments, edge_width, format_duration, frame, layout,
    plain_duration, progress_bar, rounded_quotient, shown_width, shown_widths, split_duration,
    strip_colors,
};
use todo_cli::paint::{paint, plain_text, render, Look, Segment, Tint};
use todo_cli::task::{Fraction, Task};

fn share(numerator: i64, denominator: i64) -> Fraction {
    Fraction { numerator, denominator }
}

#[test]
fn duration_splits_into_parts() {
    let parts = split_duration(2 * 2_592_000 + 3 * 86_400 + 4 * 3600 + 5 * 60 + 6);
    assert!(!parts.negative);
    assert_eq!(
        (parts.months, parts.days, parts.hours, parts.minutes, parts.seconds),
        (2, 3, 4, 5, 6)
    );
    let parts = split_duration(-61);
    assert!(parts.negative);
    assert_eq!(
        (parts.months, parts.days, parts.hours, parts.minutes, parts.seconds),
        (0, 0, 0, 1, 1)
    );
    let parts = split_duration(i64::MIN);
    assert!(parts.negative);
    assert_eq!(parts.months, 9_223_372_036_854_775_808u64 / 2_592_000);
}

#[test]
fn plain_duration_names_what_is_not_zero() {
    assert_eq!(plain_duration(0), "0s");
    assert_eq!(plain_duration(59), "59s");
    assert_eq!(plain_duration(60), "1m ");
    assert_eq!(plain_duration(3600), "1h ");
    assert_eq!(plain_duration(3661), "1h 1m 1s");
    assert_eq!(plain_duration(86_400 * 31 + 5), "1mo 1d 5s");
    assert_eq!(plain_duration(-90), "-1m 30s");
    assert_eq!(plain_duration(1800), "30m ");
}

#[test]
fn duration_parts_have_their_colours() {
    let line = duration_segments(-(2_592_000 + 86_400 + 3600 + 60 + 1));
    let looks: Vec<Look> = line.iter().map(|s| s.look).collect();
    assert_eq!(
        looks,
        vec![
            Look::Plain,
            Look::Tinted(Tint::Rgb(120, 103, 205)),
            Look::Tinted(Tint::Cyan),
            Look::Tinted(Tint::Purple),
            Look::Tinted(Tint::Yellow),
            Look::Tinted(Tint::Green),
        ]
    );
    assert_eq!(plain_text(&line), "-1mo 1d 1h 1m 1s");
}

#[test]
fn format_duration_paints_as_colored_does() {
    colored::control::set_override(true);
    let expected = format!("{}{}", "1h ".purple(), "30m ".yellow());
    assert_eq!(format_duration(5400), expected);
    assert_eq!(strip_colors(&format_duration(5400)), "1h 30m ");
    colored::control::set_override(false);
    assert_eq!(format_duration(5400), "1h 30m ");
}

#[test]
fn strip_colors_takes_escape_sequences_out() {
    assert_eq!(strip_colors("\x1b[1;38;2;128;128;128mName:\x1b[0m"), "Name:");
    assert_eq!(strip_colors("plain"), "plain");
    assert_eq!(strip_colors("\x1b[31m\x1b[0m"), "");
    assert_eq!(strip_colors("$0 \x1b[K$1"), "$0 $1");
}

#[test]
fn cells_follow_the_share() {
    assert_eq!(count_cells(share(0, 1800)), 0);
    assert_eq!(count_cells(share(900, 1800)), 13);
    assert_eq!(count_cells(share(1800, 1800)), 25);
    assert_eq!(count_cells(share(5000, 1800)), 25);
    assert_eq!(count_cells(share(-5, 1800)), 0);
    assert_eq!(count_cells(share(1, 50)), 1);
    assert_eq!(count_cells(share(1, 51)), 0);
    assert_eq!(count_cells(share(1, 1)), 25);
}

#[test]
fn quotients_round_halves_to_even() {
    assert_eq!(rounded_quotient(1, 2), 0);
    assert_eq!(rounded_quotient(3, 2), 2);
    assert_eq!(rounded_quotient(5, 2), 2);
    assert_eq!(rounded_quotient(7, 3), 2);
    assert_eq!(rounded_quotient(8, 3), 3);
    assert_eq!(rounded_quotient(0, 9), 0);
}

#[test]
fn bar_shows_cells_and_percent() {
    let line = bar_segments(share(900, 1800));
    assert_eq!(line.len(), 3);
    assert_eq!(line[0].text, "━".repeat(13));
    assert_eq!(line[0].look, Look::Tinted(Tint::Green));
    assert_eq!(line[1].text, "━".repeat(12));
    assert_eq!(line[1].look, Look::Tinted(Tint::Rgb(64, 64, 64)));
    assert_eq!(line[2].text, " 50%");
    assert_eq!(line[2].look, Look::Tinted(Tint::Cyan));
    assert_eq!(bar_segments(share(1, 1))[2].text, " 100%");
    assert_eq!(bar_segments(share(1, 200))[2].text, " 0%");
    assert_eq!(bar_segments(share(3, 200))[2].text, " 2%");
    assert_eq!(bar_segments(share(-1, 300))[2].text, " -0%");
    assert_eq!(bar_segments(share(i64::MIN, 1))[2].text, " -922337203685477580800%");
}

#[test]
fn progress_bar_paints_as_colored_does() {
    colored::control::set_override(true);
    let expected = format!(
        "{}{}{}",
        "━".repeat(13).green(),
        "━".repeat(12).truecolor(64, 64, 64),
        " 50%".cyan()
    );
    assert_eq!(progress_bar(share(900, 1800)), expected);
}

#[test]
fn urgency_warms_as_time_runs_out() {
    assert_eq!(urgency(7 * 86_400), Tint::Blue);
    assert_eq!(urgency(7 * 86_400 - 1), Tint::Green);
    assert_eq!(urgency(2 * 86_400), Tint::Green);
    assert_eq!(urgency(2 * 86_400 - 1), Tint::Yellow);
    assert_eq!(urgency(86_400), Tint::Yellow);
    assert_eq!(urgency(86_399), Tint::Red);
    assert_eq!(urgency(5 * 3600), Tint::Red);
    assert_eq!(urgency(5 * 3600 - 1), Tint::BrightRed);
    assert_eq!(urgency(-1), Tint::BrightRed);
}

#[test]
fn card_frames_the_rows() {
    let rows = vec![
        ("Name:".to_string(), "milk".to_string()),
        ("Id:".to_string(), "\x1b[36m7\x1b[0m".to_string()),
    ];
    let expected = "┏━━━━━━━━━━━━━━━━━┓\n\
                    ┣━╾╌Name:  ·  milk┃\n\
                    ┣━╾╌Id:    ·  \x1b[36m7\x1b[0m   ┃\n\
                    ┗━━━━━━━━━━━━━━━━━┛";
    assert_eq!(card(rows), expected);
}

#[test]
fn card_measures_the_first_line_only() {
    let rows = vec![("A\r\nB".to_string(), "v".to_string())];
    let text = card(rows);
    let lines: Vec<&str> = text.split('\n').collect();
    assert_eq!(lines[0], "┏━━━┓");
    assert_eq!(lines[1], "┣━╾╌A\r");
    assert_eq!(*lines.last().unwrap(), "┗━━━┛");
}

#[test]
fn card_without_rows_is_two_edges() {
    assert_eq!(card(Vec::new()), "┏┓\n┗┛");
}

#[test]
fn task_card_has_seven_rows() {
    let task = Task::with_details(7, 900, 0, 1800, "buy milk".to_string(), "2%".to_string());
    let rows = task_rows(&task, 90_000, "2030-01-01 12:00:00");
    let labels: Vec<&str> = rows.iter().map(|r| r.label.text.as_str()).collect();
    assert_eq!(
        labels,
        vec![
            "Name:",
            "Description:",
            "Deadline:",
            "Time left:",
            "Time to complete:",
            "Progress:",
            "Id:"
        ]
    );
    assert!(rows.iter().all(|r| r.label.look == Look::BoldRgb(128, 128, 128)));
    assert_eq!(rows[0].value[0].text, "buy milk");
    assert_eq!(rows[0].value[0].look, Look::Bold);
    assert_eq!(rows[1].value[0].look, Look::Italic);
    assert_eq!(rows[2].value[0].text, "2030-01-01 12:00:00");
    assert_eq!(rows[3].value[0].text, "1d 1h ");
    assert_eq!(rows[3].value[0].look, Look::Tinted(Tint::Yellow));
    assert_eq!(plain_text(&rows[4].value), "15m ");
    assert_eq!(rows[5].value[2].text, " 50%");
    assert_eq!(rows[6].value[0].text, "7");
}

#[test]
fn task_card_is_framed() {
    colored::control::set_override(false);
    let task = Task::with_details(3, 0, 4_102_444_800, 60, "n".to_string(), "d".to_string());
    let text = task.to_string();
    let lines: Vec<&str> = text.lines().collect();
    assert_eq!(lines.len(), 9);
    assert!(lines[0].starts_with('┏') && lines[0].ends_with('┓'));
    assert!(lines[1].starts_with("┣━╾╌Name:"));
    assert!(lines[7].starts_with("┣━╾╌Id:"));
    assert!(lines[7].contains("·  3"));
    assert!(lines[8].starts_with('┗') && lines[8].ends_with('┛'));
    let width = lines[1].chars().count();
    assert!(lines.iter().all(|l| l.chars().count() == width));
}

#[test]
fn shown_width_leaves_escape_sequences_out() {
    assert_eq!(shown_width("\x1b[36m7\x1b[0m"), 1);
    assert_eq!(shown_width("━━"), 2);
    assert_eq!(shown_width(""), 0);
    let rows = vec![
        ("a".to_string(), "\x1b[1mxy\x1b[0m".to_string()),
        ("b".to_string(), "z".to_string()),
    ];
    assert_eq!(shown_widths(&rows), vec![2, 1]);
}

#[test]
fn layout_fills_both_columns() {
    let rows = vec![
        ("Name:".to_string(), "milk".to_string()),
        ("Id:".to_string(), "7!".to_string()),
    ];
    assert_eq!(layout(&rows, &vec![4, 1]), "┣━╾╌Name:  ·  milk┃\n┣━╾╌Id:    ·  7!   ┃\n");
    assert_eq!(layout(&Vec::new(), &Vec::new()), "");
}

#[test]
fn frame_puts_edges_around() {
    assert_eq!(frame("x\n", 3), "┏━━━┓\nx\n┗━━━┛");
    assert_eq!(frame("", 0), "┏┓\n┗┛");
    assert_eq!(edge_width(19), 17);
    assert_eq!(edge_width(2), 0);
    assert_eq!(edge_width(1), 0);
    assert_eq!(edge_width(0), 0);
}

#[test]
fn render_of_plain_segments_is_their_text() {
    colored::control::set_override(true);
    let line = vec![
        Segment { text: "a".to_string(), look: Look::Plain },
        Segment { text: "b".to_string(), look: Look::Plain },
    ];
    assert_eq!(render(&line), "ab");
    assert_eq!(paint("x", Look::Plain), "x");
    assert_eq!(paint("x", Look::Bold), "x".bold().to_string());
    assert_eq!(paint("x", Look::Italic), "x".italic().to_string());
    assert_eq!(
        paint("x", Look::BoldRgb(128, 128, 128)),
        "x".truecolor(128, 128, 128).bold().to_string()
    );
    assert_eq!(paint("x", Look::Tinted(Tint::Blue)), "x".blue().to_string());
    assert_eq!(paint("x", Look::Tinted(Tint::Green)), "x".green().to_string());
    assert_eq!(paint("x", Look::Tinted(Tint::Yellow)), "x".yellow().to_string());
    assert_eq!(paint("x", Look::Tinted(Tint::Red)), "x".red().to_string());
    assert_eq!(paint("x", Look::Tinted(Tint::BrightRed)), "x".bright_red().to_string());
    assert_eq!(paint("x", Look::Tinted(Tint::Cyan)), "x".cyan().to_string());
    assert_eq!(paint("x", Look::Tinted(Tint::Purple)), "x".purple().to_string());
    assert_eq!(paint("x", Look::Tinted(Tint::Rgb(1, 2, 3))), "x".truecolor(1, 2, 3).to_string());
}
