//! White space around a line of input.

use vstd::prelude::*;

verus! {

/// Whether `c` is white space: the characters with the Unicode property
/// `White_Space`.
pub open spec fn is_whitespace(c: char) -> bool {
    let code = c as u32;
    ||| 0x09 <= code <= 0x0d
    ||| code == 0x20
    ||| code == 0x85
    ||| code == 0xa0
    ||| code == 0x1680
    ||| 0x2000 <= code <= 0x200a
    ||| code == 0x2028
    ||| code == 0x2029
    ||| code == 0x202f
    ||| code == 0x205f
    ||| code == 0x3000
}

/// `text` without the white space it starts with.
pub open spec fn trim_start(text: Seq<char>) -> Seq<char>
    decreases text.len(),
{
    if text.len() > 0 && is_whitespace(text[0]) {
        trim_start(text.drop_first())
    } else {
        text
    }
}

/// `text` without the white space it ends with.
pub open spec fn trim_end(text: Seq<char>) -> Seq<char>
    decreases text.len(),
{
    if text.len() > 0 && is_whitespace(text.last()) {
        trim_end(text.drop_last())
    } else {
        text
    }
}

/// `text` without the white space at either end.
pub open spec fn trimmed(text: Seq<char>) -> Seq<char> {
    trim_end(trim_start(text))
}

/// `text` without the white space at either end: `str::trim`, which removes
/// from both ends the characters that Unicode gives the property `White_Space`.
#[verifier::external_body]
pub(crate) fn trim(text: &str) -> (inner: &str)
    ensures
        inner@ == trimmed(text@),
{
    text.trim()
}

/// Whether `text` has a line feed at `i` and none before it.
pub open spec fn is_first_break(text: Seq<char>, i: int) -> bool {
    &&& 0 <= i < text.len()
    &&& text[i] == '\n'
    &&& forall|j: int| 0 <= j < i ==> text[j] != '\n'
}

/// The first line of `text`: what stands before the first line feed, less a
/// carriage return that stands directly before it; the whole text where it has
/// no line feed.
pub open spec fn first_line(text: Seq<char>) -> Seq<char> {
    if exists|i: int| is_first_break(text, i) {
        let line = text.take(choose|i: int| is_first_break(text, i));
        if line.len() > 0 && line.last() == '\r' {
            line.drop_last()
        } else {
            line
        }
    } else {
        text
    }
}

/// The first line of `text`: the first of `str::lines`, which splits at line
/// feeds, takes a carriage return directly before a line feed for a part of the
/// line ending, and gives no line for an empty text.
#[verifier::external_body]
pub(crate) fn first_line_of(text: &str) -> (line: &str)
    ensures
        line@ == first_line(text@),
{
    text.lines().next().unwrap_or("")
}

/// Whether `text` holds nothing but white space.
pub fn is_blank(text: &str) -> (blank: bool)
    ensures
        blank == (trimmed(text@).len() == 0),
{
    trim(text).is_empty()
}

} // verus!
