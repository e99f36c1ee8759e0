//! Text with colour and weight for the terminal.
//!
//! What a painted text looks like is the business of `colored`: it adds
//! escape sequences, or none where the host's environment asks for plain
//! output. So nothing is stated of a painted text. What is stated is which
//! text gets which look.

use colored::Colorize;
use vstd::prelude::*;
use vstd::string::StringExecFns;

verus! {

/// A colour.
#[derive(Clone, Copy, Debug, PartialEq, Eq, Structural)]
pub enum Tint {
    Blue,
    Green,
    Yellow,
    Red,
    BrightRed,
    Cyan,
    Purple,
    /// Red, green and blue parts.
    Rgb(u8, u8, u8),
}

/// How a text is to look.
#[derive(Clone, Copy, Debug, PartialEq, Eq, Structural)]
pub enum Look {
    /// As it is.
    Plain,
    /// In a colour.
    Tinted(Tint),
    Bold,
    Italic,
    /// Bold, in the colour with these red, green and blue parts.
    BoldRgb(u8, u8, u8),
}

/// A text and its look.
#[derive(Debug)]
pub struct Segment {
    pub text: String,
    pub look: Look,
}

/// A [`Segment`] with its text as a character sequence.
pub struct SegmentView {
    pub text: Seq<char>,
    pub look: Look,
}

impl View for Segment {
    type V = SegmentView;

    open spec fn view(&self) -> SegmentView {
        SegmentView { text: self.text@, look: self.look }
    }
}

/// The views of `segments`, in their order.
pub open spec fn segment_views(segments: Seq<Segment>) -> Seq<SegmentView> {
    segments.map_values(|segment: Segment| segment@)
}

/// The texts of `segments` in one line, without their looks.
pub open spec fn flat_text(segments: Seq<SegmentView>) -> Seq<char>
    decreases segments.len(),
{
    if segments.len() == 0 {
        Seq::empty()
    } else {
        flat_text(segments.drop_last()) + segments.last().text
    }
}

/// `text` in blue: `colored::Colorize::blue`.
#[verifier::external_body]
fn blue(text: &str) -> String {
    text.blue().to_string()
}

/// `text` in green: `colored::Colorize::green`.
#[verifier::external_body]
fn green(text: &str) -> String {
    text.green().to_string()
}

/// `text` in yellow: `colored::Colorize::yellow`.
#[verifier::external_body]
fn yellow(text: &str) -> String {
    text.yellow().to_string()
}

/// `text` in red: `colored::Colorize::red`.
#[verifier::external_body]
fn red(text: &str) -> String {
    text.red().to_string()
}

/// `text` in bright red: `colored::Colorize::bright_red`.
#[verifier::external_body]
fn bright_red(text: &str) -> String {
    text.bright_red().to_string()
}

/// `text` in cyan: `colored::Colorize::cyan`.
#[verifier::external_body]
fn cyan(text: &str) -> String {
    text.cyan().to_string()
}

/// `text` in purple: `colored::Colorize::purple`.
#[verifier::external_body]
fn purple(text: &str) -> String {
    text.purple().to_string()
}

/// `text` in the colour with these parts: `colored::Colorize::truecolor`.
#[verifier::external_body]
fn truecolor(text: &str, r: u8, g: u8, b: u8) -> String {
    text.truecolor(r, g, b).to_string()
}

/// `text` in bold: `colored::Colorize::bold`.
#[verifier::external_body]
fn bold(text: &str) -> String {
    text.bold().to_string()
}

/// `text` in italics: `colored::Colorize::italic`.
#[verifier::external_body]
fn italic(text: &str) -> String {
    text.italic().to_string()
}

/// `text` in bold and in the colour with these parts:
/// `colored::Colorize::truecolor`, then `bold` on what it gives.
#[verifier::external_body]
fn bold_truecolor(text: &str, r: u8, g: u8, b: u8) -> String {
    text.truecolor(r, g, b).bold().to_string()
}

/// `parts` one behind the other.
pub open spec fn concat(parts: Seq<Seq<char>>) -> Seq<char>
    decreases parts.len(),
{
    if parts.len() == 0 {
        Seq::empty()
    } else {
        concat(parts.drop_last()) + parts.last()
    }
}

/// Whether `painted` holds one text for each of `segments`, which for a
/// plain segment is the text of the segment.
pub open spec fn paints(segments: Seq<SegmentView>, painted: Seq<Seq<char>>) -> bool {
    &&& painted.len() == segments.len()
    &&& forall|i: int|
        0 <= i < segments.len() && (#[trigger] segments[i]).look == Look::Plain ==> painted[i]
            == segments[i].text
}

/// Whether `line` is `segments` painted: one text for each segment, in
/// their order, and the plain segments as they are.
pub open spec fn is_painted(segments: Seq<SegmentView>, line: Seq<char>) -> bool {
    exists|painted: Seq<Seq<char>>| paints(segments, painted) && line == concat(painted)
}

/// `text` in the colour `tint`.
fn tinted(text: &str, tint: Tint) -> String {
    match tint {
        Tint::Blue => blue(text),
        Tint::Green => green(text),
        Tint::Yellow => yellow(text),
        Tint::Red => red(text),
        Tint::BrightRed => bright_red(text),
        Tint::Cyan => cyan(text),
        Tint::Purple => purple(text),
        Tint::Rgb(r, g, b) => truecolor(text, r, g, b),
    }
}

/// `text` with the look `look`. A plain text stays as it is.
pub fn paint(text: &str, look: Look) -> (painted: String)
    ensures
        look == Look::Plain ==> painted@ == text@,
        is_painted(seq![SegmentView { text: text@, look }], painted@),
{
    let painted = match look {
        Look::Plain => text.to_owned(),
        Look::Tinted(tint) => tinted(text, tint),
        Look::Bold => bold(text),
        Look::Italic => italic(text),
        Look::BoldRgb(r, g, b) => bold_truecolor(text, r, g, b),
    };
    proof {
        let one = seq![painted@];
        assert(one.drop_last() =~= Seq::<Seq<char>>::empty());
        assert(concat(one) =~= painted@) by {
            reveal_with_fuel(concat, 2);
        }
        assert(paints(seq![SegmentView { text: text@, look }], one));
    }
    painted
}

/// The segments, each with its look, in one line: one painted text for each
/// segment, in their order, and the plain segments as they are.
pub fn render(segments: &Vec<Segment>) -> (line: String)
    ensures
        is_painted(segment_views(segments@), line@),
{
    let ghost views = segment_views(segments@);
    let ghost mut painted: Seq<Seq<char>> = Seq::empty();
    let mut line = String::new();
    let mut i: usize = 0;
    while i < segments.len()
        invariant
            i <= segments.len(),
            views == segment_views(segments@),
            painted.len() == i,
            forall|k: int|
                0 <= k < i && (#[trigger] views[k]).look == Look::Plain ==> painted[k]
                    == views[k].text,
            line@ == concat(painted),
        decreases segments.len() - i,
    {
        let piece = paint(segments[i].text.as_str(), segments[i].look);
        line.append(piece.as_str());
        proof {
            assert(painted.push(piece@).drop_last() =~= painted);
            painted = painted.push(piece@);
        }
        i += 1;
    }
    assert(paints(views, painted));
    line
}

/// The texts of the segments in one line, without their looks.
pub fn plain_text(segments: &Vec<Segment>) -> (line: String)
    ensures
        line@ == flat_text(segment_views(segments@)),
{
    let ghost views = segment_views(segments@);
    let mut line = String::new();
    let mut i: usize = 0;
    assert(views.take(0) =~= Seq::empty());
    while i < segments.len()
        invariant
            i <= segments.len(),
            views == segment_views(segments@),
            line@ == flat_text(views.take(i as int)),
        decreases segments.len() - i,
    {
        proof {
            assert(views.take(i + 1).drop_last() =~= views.take(i as int));
            assert(views.take(i + 1).last().text == segments@[i as int].text@);
        }
        line.append(segments[i].text.as_str());
        i += 1;
    }
    assert(views.take(i as int) =~= views);
    line
}

} // verus!
