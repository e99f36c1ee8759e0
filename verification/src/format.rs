//! What the user is shown: spans of time, the progress bar and the frame of a card.

use vstd::prelude::*;
use vstd::string::{StrSliceExecFns, StringExecFns};
use crate::decimal::{decimal_text, digit_char, number_text, push_number, unsigned_size};
use crate::paint::{
    flat_text, is_painted, plain_text, render, segment_views, Look, Segment, SegmentView, Tint,
};
use crate::pattern::{regex_replaced, replace_all};
use crate::task::Fraction;
use crate::text::{first_line, first_line_of};

verus! {

/// A span of time in months of thirty days, days, hours, minutes and seconds.
#[derive(Clone, Copy, Debug, PartialEq, Eq, Structural)]
pub struct DurationParts {
    /// Whether the span lies in the past.
    pub negative: bool,
    pub months: u64,
    pub days: u64,
    pub hours: u64,
    pub minutes: u64,
    pub seconds: u64,
}

/// The seconds in a day.
pub const DAY: u64 = 86400;

/// The seconds in a month of thirty days.
pub const MONTH: u64 = 2592000;

/// The parts of a span of `duration` seconds: as many whole months as it holds,
/// then as many whole days as are left, and so on down to the seconds.
pub open spec fn parts_of(duration: i64) -> DurationParts {
    let size: int = if duration < 0 {
        -duration
    } else {
        duration as int
    };
    let below_month = size % 2592000;
    let below_day = below_month % 86400;
    let below_hour = below_day % 3600;
    DurationParts {
        negative: duration < 0,
        months: (size / 2592000) as u64,
        days: (below_month / 86400) as u64,
        hours: (below_day / 3600) as u64,
        minutes: (below_hour / 60) as u64,
        seconds: (below_hour % 60) as u64,
    }
}

/// The seconds in `parts`, without regard to the direction.
pub open spec fn seconds_in(parts: DurationParts) -> int {
    parts.months * 2592000 + parts.days * 86400 + parts.hours * 3600 + parts.minutes * 60
        + parts.seconds
}

/// Splits a span of `duration` seconds into its parts. The parts add up to the
/// span, and each part but the months is less than one of the next.
pub fn split_duration(duration: i64) -> (parts: DurationParts)
    ensures
        parts == parts_of(duration),
        seconds_in(parts) == if duration < 0 {
            -duration
        } else {
            duration as int
        },
        parts.days < 30,
        parts.hours < 24,
        parts.minutes < 60,
        parts.seconds < 60,
{
    let size = unsigned_size(duration);
    let months = size / MONTH;
    let below_month = size % MONTH;
    let days = below_month / DAY;
    let below_day = below_month % DAY;
    let hours = below_day / 3600;
    let below_hour = below_day % 3600;
    let minutes = below_hour / 60;
    let seconds = below_hour % 60;
    DurationParts { negative: duration < 0, months, days, hours, minutes, seconds }
}

/// The segment of `text` with the look `look`.
pub open spec fn segment(text: Seq<char>, look: Look) -> SegmentView {
    SegmentView { text, look }
}

/// `segment` where `present`, and nothing otherwise.
pub open spec fn optional(present: bool, segment: SegmentView) -> Seq<SegmentView> {
    if present {
        seq![segment]
    } else {
        Seq::empty()
    }
}

/// Whether the seconds of `parts` are shown: where there are some, and where
/// there is nothing else to show.
pub open spec fn shows_seconds(parts: DurationParts) -> bool {
    ||| parts.seconds != 0
    ||| parts.months == 0 && parts.days == 0 && parts.hours == 0 && parts.minutes == 0
}

/// The line that shows `parts`: a minus sign for a span in the past, then each
/// part that is not zero with its unit and in its colour.
pub open spec fn duration_line(parts: DurationParts) -> Seq<SegmentView> {
    optional(parts.negative, segment("-"@, Look::Plain)) + optional(
        parts.months != 0,
        segment(decimal_text(parts.months as nat) + "mo "@, Look::Tinted(Tint::Rgb(120, 103, 205))),
    ) + optional(
        parts.days != 0,
        segment(decimal_text(parts.days as nat) + "d "@, Look::Tinted(Tint::Cyan)),
    ) + optional(
        parts.hours != 0,
        segment(decimal_text(parts.hours as nat) + "h "@, Look::Tinted(Tint::Purple)),
    ) + optional(
        parts.minutes != 0,
        segment(decimal_text(parts.minutes as nat) + "m "@, Look::Tinted(Tint::Yellow)),
    ) + optional(
        shows_seconds(parts),
        segment(decimal_text(parts.seconds as nat) + "s"@, Look::Tinted(Tint::Green)),
    )
}

/// Puts the number `n` with its unit behind `line`, where `present`.
fn push_part(line: &mut Vec<Segment>, present: bool, n: u64, unit: &str, tint: Tint)
    ensures
        segment_views(final(line)@) == segment_views(old(line)@) + optional(
            present,
            segment(decimal_text(n as nat) + unit@, Look::Tinted(tint)),
        ),
{
    if present {
        let mut text = number_text(n);
        text.append(unit);
        line.push(Segment { text, look: Look::Tinted(tint) });
    }
    assert(segment_views(final(line)@) =~= segment_views(old(line)@) + optional(
        present,
        segment(decimal_text(n as nat) + unit@, Look::Tinted(tint)),
    ));
}

/// The line that shows a span of `duration` seconds, segment by segment.
pub fn duration_segments(duration: i64) -> (line: Vec<Segment>)
    ensures
        segment_views(line@) == duration_line(parts_of(duration)),
{
    let parts = split_duration(duration);
    let mut line: Vec<Segment> = Vec::new();
    if parts.negative {
        line.push(Segment { text: String::from_str("-"), look: Look::Plain });
    }
    assert(segment_views(line@) =~= optional(parts.negative, segment("-"@, Look::Plain)));
    push_part(&mut line, parts.months != 0, parts.months, "mo ", Tint::Rgb(120, 103, 205));
    push_part(&mut line, parts.days != 0, parts.days, "d ", Tint::Cyan);
    push_part(&mut line, parts.hours != 0, parts.hours, "h ", Tint::Purple);
    push_part(&mut line, parts.minutes != 0, parts.minutes, "m ", Tint::Yellow);
    let last = parts.seconds != 0 || (parts.months == 0 && parts.days == 0 && parts.hours == 0
        && parts.minutes == 0);
    push_part(&mut line, last, parts.seconds, "s", Tint::Green);
    line
}

/// A span of `duration` seconds as the user reads it, in colours:
/// [`duration_segments`], painted.
pub fn format_duration(duration: i64) -> (text: String)
    ensures
        is_painted(duration_line(parts_of(duration)), text@),
{
    let line = duration_segments(duration);
    render(&line)
}

/// A span of `duration` seconds as the user reads it, without colours.
pub fn plain_duration(duration: i64) -> (text: String)
    ensures
        text@ == flat_text(duration_line(parts_of(duration))),
{
    let line = duration_segments(duration);
    plain_text(&line)
}

/// The form of the escape sequences that give a text its look.
pub const ANSI_PATTERN: &'static str = r"\x1B\[[0-9;]*[a-zA-Z]";

/// `text` without the escape sequences in it: every match of [`ANSI_PATTERN`]
/// taken out.
pub open spec fn stripped(text: Seq<char>) -> Seq<char> {
    match regex_replaced(ANSI_PATTERN@, text, ""@) {
        Ok(rest) => rest,
        Err(_) => text,
    }
}

/// `s` without the escape sequences in it.
pub fn strip_colors(s: &str) -> (rest: String)
    ensures
        rest@ == stripped(s@),
{
    match replace_all(ANSI_PATTERN, s, "") {
        Ok(rest) => rest,
        Err(_) => s.to_owned(),
    }
}

/// A line of `n` spaces.
pub open spec fn spaces(n: nat) -> Seq<char> {
    Seq::new(n, |i: int| ' ')
}

/// A line of `n` horizontal bars.
pub open spec fn bars(n: nat) -> Seq<char> {
    Seq::new(n, |i: int| '━')
}

/// The rows of a card: a label and a value each.
pub type Rows = Seq<(Seq<char>, Seq<char>)>;

/// The rows as character sequences.
pub open spec fn row_views(rows: Seq<(String, String)>) -> Rows {
    rows.map_values(|row: (String, String)| (row.0@, row.1@))
}

/// How long the value of each row shows, in characters: escape sequences do not
/// count.
pub open spec fn shown_lengths(rows: Rows) -> Seq<nat> {
    rows.map_values(|row: (Seq<char>, Seq<char>)| stripped(row.1).len())
}

/// The lengths as natural numbers.
pub open spec fn lengths(shown: Seq<usize>) -> Seq<nat> {
    shown.map_values(|n: usize| n as nat)
}

/// The length of the longest label, in characters.
pub open spec fn label_width(rows: Rows) -> nat
    decreases rows.len(),
{
    if rows.len() == 0 {
        0
    } else if label_width(rows.drop_last()) >= rows.last().0.len() {
        label_width(rows.drop_last())
    } else {
        rows.last().0.len()
    }
}

/// The greatest of `shown`, and 0 where there is none.
pub open spec fn widest(shown: Seq<nat>) -> nat
    decreases shown.len(),
{
    if shown.len() == 0 {
        0
    } else if widest(shown.drop_last()) >= shown.last() {
        widest(shown.drop_last())
    } else {
        shown.last()
    }
}

/// One row of a card: the label, filled up with spaces to two more than the
/// longest label; a dot; the value, which shows `shown` characters, filled up
/// to the longest value; and the right edge.
pub open spec fn row_line(
    label: Seq<char>,
    value: Seq<char>,
    shown: nat,
    labels: nat,
    values: nat,
) -> Seq<char> {
    "┣━╾╌"@ + label + spaces((labels + 2 - label.len()) as nat) + "·"@ + "  "@ + value + spaces(
        (values - shown) as nat,
    ) + "┃\n"@
}

/// The first `n` rows of a card, one line each.
pub open spec fn rows_block(rows: Rows, shown: Seq<nat>, labels: nat, values: nat, n: nat) -> Seq<
    char,
>
    decreases n,
{
    if n == 0 {
        Seq::empty()
    } else {
        rows_block(rows, shown, labels, values, (n - 1) as nat) + row_line(
            rows[n - 1].0,
            rows[n - 1].1,
            shown[n - 1],
            labels,
            values,
        )
    }
}

/// The rows of a card whose values show `shown` characters, one line each, the
/// labels in one column and the values in another.
pub open spec fn content_of(rows: Rows, shown: Seq<nat>) -> Seq<char> {
    rows_block(rows, shown, label_width(rows), widest(shown), rows.len())
}

/// The bars in the top and the bottom edge of a card whose first row shows
/// `shown` characters: two less, for the corners.
pub open spec fn edge_for(shown: nat) -> nat {
    if shown >= 2 {
        (shown - 2) as nat
    } else {
        0
    }
}

/// `content` between a top edge and a bottom edge of `edge` bars.
pub open spec fn framed(content: Seq<char>, edge: nat) -> Seq<char> {
    "┏"@ + bars(edge) + "┓\n"@ + content + "┗"@ + bars(edge) + "┛"@
}

/// The card: the rows in a frame that is as wide as the first row shows.
pub open spec fn card_text(rows: Rows) -> Seq<char> {
    let content = content_of(rows, shown_lengths(rows));
    framed(content, edge_for(stripped(first_line(content)).len()))
}

/// No label is longer than the longest.
pub proof fn lemma_label_width(rows: Rows, i: int)
    requires
        0 <= i < rows.len(),
    ensures
        rows[i].0.len() <= label_width(rows),
    decreases rows.len(),
{
    if i < rows.len() - 1 {
        lemma_label_width(rows.drop_last(), i);
    }
}

/// None of `shown` is greater than the greatest.
pub proof fn lemma_widest(shown: Seq<nat>, i: int)
    requires
        0 <= i < shown.len(),
    ensures
        shown[i] <= widest(shown),
    decreases shown.len(),
{
    if i < shown.len() - 1 {
        lemma_widest(shown.drop_last(), i);
    }
}

/// Puts `n` times `piece` behind `line`.
fn push_repeated(line: &mut String, piece: &str, n: usize, Ghost(c): Ghost<char>)
    requires
        piece@ == seq![c],
    ensures
        final(line)@ == old(line)@ + Seq::new(n as nat, |i: int| c),
{
    let mut i: usize = 0;
    assert(line@ =~= old(line)@ + Seq::new(0, |i: int| c));
    while i < n
        invariant
            i <= n,
            piece@ == seq![c],
            line@ == old(line)@ + Seq::new(i as nat, |k: int| c),
        decreases n - i,
    {
        line.append(piece);
        i += 1;
        assert(line@ =~= old(line)@ + Seq::new(i as nat, |k: int| c));
    }
}

/// How long `text` shows, in characters: escape sequences do not count.
pub fn shown_width(text: &str) -> (shown: usize)
    ensures
        shown == stripped(text@).len(),
{
    strip_colors(text).as_str().unicode_len()
}

/// How long the value of each row shows.
pub fn shown_widths(strings: &Vec<(String, String)>) -> (shown: Vec<usize>)
    ensures
        lengths(shown@) == shown_lengths(row_views(strings@)),
{
    let mut shown: Vec<usize> = Vec::new();
    let mut i: usize = 0;
    while i < strings.len()
        invariant
            i <= strings.len(),
            shown@.len() == i,
            forall|k: int| 0 <= k < i ==> (#[trigger] shown@[k]) == stripped(strings@[k].1@).len(),
        decreases strings.len() - i,
    {
        shown.push(shown_width(strings[i].1.as_str()));
        i += 1;
    }
    assert(lengths(shown@) =~= shown_lengths(row_views(strings@)));
    shown
}

/// The length of the longest label and the greatest of `shown`.
fn measure(strings: &Vec<(String, String)>, shown: &Vec<usize>) -> (widths: (usize, usize))
    ensures
        widths.0 == label_width(row_views(strings@)),
        widths.1 == widest(lengths(shown@)),
{
    let ghost rows = row_views(strings@);
    let ghost sizes = lengths(shown@);
    let mut labels: usize = 0;
    let mut i: usize = 0;
    assert(rows.take(0) =~= Seq::empty());
    while i < strings.len()
        invariant
            i <= strings.len(),
            rows == row_views(strings@),
            labels == label_width(rows.take(i as int)),
        decreases strings.len() - i,
    {
        proof {
            assert(rows.take(i + 1).drop_last() =~= rows.take(i as int));
            assert(rows.take(i + 1).last() == rows[i as int]);
        }
        let label = strings[i].0.as_str().unicode_len();
        if label > labels {
            labels = label;
        }
        i += 1;
    }
    assert(rows.take(i as int) =~= rows);
    let mut values: usize = 0;
    let mut j: usize = 0;
    assert(sizes.take(0) =~= Seq::empty());
    while j < shown.len()
        invariant
            j <= shown.len(),
            sizes == lengths(shown@),
            values == widest(sizes.take(j as int)),
        decreases shown.len() - j,
    {
        proof {
            assert(sizes.take(j + 1).drop_last() =~= sizes.take(j as int));
            assert(sizes.take(j + 1).last() == shown@[j as int]);
        }
        if shown[j] > values {
            values = shown[j];
        }
        j += 1;
    }
    assert(sizes.take(j as int) =~= sizes);
    (labels, values)
}

/// Puts one row of a card behind `content`.
fn push_row(
    content: &mut String,
    label: &str,
    value: &str,
    shown: usize,
    labels: usize,
    values: usize,
)
    requires
        label@.len() <= labels,
        shown <= values,
    ensures
        final(content)@ == old(content)@ + row_line(
            label@,
            value@,
            shown as nat,
            labels as nat,
            values as nat,
        ),
{
    proof {
        reveal_strlit(" ");
        reveal_strlit("  ");
        assert(" "@ =~= seq![' ']);
    }
    content.append("┣━╾╌");
    content.append(label);
    push_repeated(content, " ", labels - label.unicode_len(), Ghost(' '));
    content.append("  ");
    content.append("·");
    content.append("  ");
    content.append(value);
    push_repeated(content, " ", values - shown, Ghost(' '));
    content.append("┃\n");
    proof {
        let gap = (labels - label@.len()) as nat;
        assert(spaces(gap) + "  "@ =~= spaces(gap + 2));
        assert(final(content)@ =~= old(content)@ + row_line(
            label@,
            value@,
            shown as nat,
            labels as nat,
            values as nat,
        ));
    }
}

/// The rows of a card, one line each: every label filled up to the longest
/// label and every value to the longest value, where the value of row `i` shows
/// `shown[i]` characters.
pub fn layout(strings: &Vec<(String, String)>, shown: &Vec<usize>) -> (content: String)
    requires
        shown@.len() == strings@.len(),
    ensures
        content@ == content_of(row_views(strings@), lengths(shown@)),
{
    let ghost rows = row_views(strings@);
    let ghost sizes = lengths(shown@);
    let (labels, values) = measure(strings, shown);
    let mut content = String::new();
    let mut i: usize = 0;
    while i < strings.len()
        invariant
            i <= strings.len(),
            shown@.len() == strings@.len(),
            rows == row_views(strings@),
            sizes == lengths(shown@),
            labels == label_width(rows),
            values == widest(sizes),
            content@ == rows_block(rows, sizes, labels as nat, values as nat, i as nat),
        decreases strings.len() - i,
    {
        proof {
            lemma_label_width(rows, i as int);
            lemma_widest(sizes, i as int);
        }
        push_row(
            &mut content,
            strings[i].0.as_str(),
            strings[i].1.as_str(),
            shown[i],
            labels,
            values,
        );
        i += 1;
    }
    content
}

/// `content` between a top edge and a bottom edge of `edge` bars.
pub fn frame(content: &str, edge: usize) -> (text: String)
    ensures
        text@ == framed(content@, edge as nat),
{
    proof {
        reveal_strlit("━");
        assert("━"@ =~= seq!['━']);
    }
    let mut text = String::from_str("┏");
    push_repeated(&mut text, "━", edge, Ghost('━'));
    text.append("┓\n");
    text.append(content);
    text.append("┗");
    push_repeated(&mut text, "━", edge, Ghost('━'));
    text.append("┛");
    assert(text@ =~= framed(content@, edge as nat));
    text
}

/// The bars in the edges of a card whose first row shows `shown` characters.
pub fn edge_width(shown: usize) -> (edge: usize)
    ensures
        edge == edge_for(shown as nat),
{
    if shown >= 2 {
        shown - 2
    } else {
        0
    }
}

/// A card: the rows in a frame, the labels in one column and the values in
/// another.
///
/// A label is as long as its characters; a value as long as it shows, its
/// escape sequences not counted. The frame is as wide as the first row shows.
/// What shows is found with [`strip_colors`]; [`layout`] and [`frame`] state
/// what is made of it.
pub fn card(strings: Vec<(String, String)>) -> (text: String)
    ensures
        text@ == card_text(row_views(strings@)),
{
    let shown = shown_widths(&strings);
    assert(shown@.len() == lengths(shown@).len());
    let content = layout(&strings, &shown);
    let edge = edge_width(shown_width(first_line_of(content.as_str())));
    frame(content.as_str(), edge)
}

/// The cells of a progress bar.
pub const BAR_CELLS: usize = 25;

/// The cells of the bar that are filled for `share`: the share of the cells,
/// rounded to the nearest whole cell, halves upwards; none for a share below
/// nothing and all for a share above the whole.
pub open spec fn filled_cells(share: Fraction) -> nat {
    if share.numerator <= 0 {
        0
    } else if share.numerator >= share.denominator {
        25
    } else {
        ((50 * share.numerator + share.denominator) / (2 * share.denominator)) as nat
    }
}

/// `n / d` rounded to the nearest whole number, halves to the even one.
pub open spec fn round_half_even(n: nat, d: nat) -> nat {
    let q = n / d;
    let r = n % d;
    if 2 * r < d {
        q
    } else if 2 * r > d {
        q + 1
    } else if q % 2 == 0 {
        q
    } else {
        q + 1
    }
}

/// The size of `x` without its sign.
pub open spec fn size_of(x: i64) -> nat {
    if x < 0 {
        (-x) as nat
    } else {
        x as nat
    }
}

/// `share` in percent, rounded to a whole number, halves to the even one. A
/// share below nothing keeps its minus sign even where it rounds to 0.
pub open spec fn percent_text(share: Fraction) -> Seq<char> {
    let figure = decimal_text(
        round_half_even(100 * size_of(share.numerator), share.denominator as nat),
    );
    if share.numerator < 0 {
        seq!['-'] + figure
    } else {
        figure
    }
}

/// The progress bar for `share`: the filled cells in green, the others in grey,
/// and the share in percent behind them.
pub open spec fn bar_line(share: Fraction) -> Seq<SegmentView> {
    seq![
        segment(bars(filled_cells(share)), Look::Tinted(Tint::Green)),
        segment(bars((25 - filled_cells(share)) as nat), Look::Tinted(Tint::Rgb(64, 64, 64))),
        segment(seq![' '] + percent_text(share) + seq!['%'], Look::Tinted(Tint::Cyan)),
    ]
}

/// The cells of the bar that are filled for `share`.
pub fn count_cells(share: Fraction) -> (cells: usize)
    requires
        share.wf(),
    ensures
        cells == filled_cells(share),
        cells <= 25,
{
    if share.numerator <= 0 {
        0
    } else if share.numerator >= share.denominator {
        25
    } else {
        let n = share.numerator as u128;
        let d = share.denominator as u128;
        let cells = (50 * n + d) / (2 * d);
        assert(cells <= 25) by (nonlinear_arith)
            requires
                cells == (50 * n + d) / (2 * d),
                0 < n < d,
        ;
        cells as usize
    }
}

/// `n / d` rounded to the nearest whole number, halves to the even one.
pub fn rounded_quotient(n: u128, d: u128) -> (q: u128)
    requires
        0 < d <= u128::MAX / 2,
    ensures
        q == round_half_even(n as nat, d as nat),
{
    let q = n / d;
    let r = n % d;
    assert(d >= 2 ==> 2 * q <= n) by (nonlinear_arith)
        requires
            q == n / d,
            d > 0,
    ;
    if 2 * r < d {
        q
    } else if 2 * r > d {
        q + 1
    } else if q % 2 == 0 {
        q
    } else {
        q + 1
    }
}

/// The progress bar for `share`, segment by segment.
pub fn bar_segments(share: Fraction) -> (line: Vec<Segment>)
    requires
        share.wf(),
    ensures
        segment_views(line@) == bar_line(share),
{
    proof {
        reveal_strlit("━");
        assert("━"@ =~= seq!['━']);
        reveal_strlit(" ");
        reveal_strlit("-");
        reveal_strlit("%");
    }
    let cells = count_cells(share);
    let mut filled = String::new();
    push_repeated(&mut filled, "━", cells, Ghost('━'));
    let mut open = String::new();
    push_repeated(&mut open, "━", BAR_CELLS - cells, Ghost('━'));
    let mut percent = String::from_str(" ");
    if share.numerator < 0 {
        percent.append("-");
    }
    let figure = rounded_quotient(
        100 * unsigned_size(share.numerator) as u128,
        share.denominator as u128,
    );
    assert(figure <= 100 * 0x8000_0000_0000_0000 + 1) by (nonlinear_arith)
        requires
            figure == round_half_even(
                100 * size_of(share.numerator),
                share.denominator as nat,
            ),
            size_of(share.numerator) <= 0x8000_0000_0000_0000,
            share.denominator >= 1,
    ;
    push_wide_number(&mut percent, figure);
    percent.append("%");
    let mut line: Vec<Segment> = Vec::new();
    line.push(Segment { text: filled, look: Look::Tinted(Tint::Green) });
    line.push(Segment { text: open, look: Look::Tinted(Tint::Rgb(64, 64, 64)) });
    line.push(Segment { text: percent, look: Look::Tinted(Tint::Cyan) });
    proof {
        assert(filled@ =~= bars(cells as nat));
        assert(open@ =~= bars((25 - cells) as nat));
        assert(percent@ =~= seq![' '] + percent_text(share) + seq!['%']);
        assert(segment_views(line@) =~= bar_line(share));
    }
    line
}

/// Writes `n` in decimal behind `line`.
fn push_wide_number(line: &mut String, n: u128)
    ensures
        final(line)@ == old(line)@ + decimal_text(n as nat),
    decreases n,
{
    if n <= 0xffff_ffff_ffff_ffff {
        push_number(line, n as u64);
    } else {
        push_wide_number(line, n / 10);
        push_number(line, (n % 10) as u64);
        assert(decimal_text((n % 10) as nat) =~= seq![digit_char((n % 10) as nat)]);
        assert(final(line)@ =~= old(line)@ + decimal_text(n as nat));
    }
}

/// The progress bar for `share`, in colours: [`bar_segments`], painted.
pub fn progress_bar(share: Fraction) -> (text: String)
    requires
        share.wf(),
    ensures
        is_painted(bar_line(share), text@),
{
    let line = bar_segments(share);
    render(&line)
}

} // verus!
