//! Whole numbers written in decimal.

use vstd::prelude::*;
use vstd::string::StringExecFns;
use vstd::utf8::{is_ascii_chars, is_ascii_chars_encode_utf8};

verus! {

/// The byte of the digit `0` in ASCII.
pub const ZERO: u8 = 48;

/// The byte of the digit `9` in ASCII.
pub const NINE: u8 = 57;

/// The byte of the plus sign in ASCII.
pub const PLUS: u8 = 43;

/// The byte of the minus sign in ASCII.
pub const MINUS: u8 = 45;

/// Whether `c` is one of the ten digits `0` to `9`.
pub open spec fn is_digit(c: char) -> bool {
    '0' <= c <= '9'
}

/// The number that the digit `c` stands for.
pub open spec fn digit_value(c: char) -> int {
    c as int - 48
}

/// Whether `text` holds a digit and nothing but digits.
pub open spec fn all_digits(text: Seq<char>) -> bool {
    &&& text.len() > 0
    &&& forall|i: int| 0 <= i < text.len() ==> is_digit(#[trigger] text[i])
}

/// The number that `digits` spell in base ten.
pub open spec fn decimal_value(digits: Seq<char>) -> int
    decreases digits.len(),
{
    if digits.len() == 0 {
        0
    } else {
        10 * decimal_value(digits.drop_last()) + digit_value(digits.last())
    }
}

/// The number that `text` spells: digits, with at most one sign before them.
pub open spec fn signed_decimal(text: Seq<char>) -> Option<int> {
    if text.len() > 0 && text[0] == '-' {
        if all_digits(text.drop_first()) {
            Some(-decimal_value(text.drop_first()))
        } else {
            None
        }
    } else if text.len() > 0 && text[0] == '+' {
        if all_digits(text.drop_first()) {
            Some(decimal_value(text.drop_first()))
        } else {
            None
        }
    } else if all_digits(text) {
        Some(decimal_value(text))
    } else {
        None
    }
}

/// The signed 64-bit number that `text` spells, if it spells one.
pub open spec fn parsed_i64(text: Seq<char>) -> Option<i64> {
    match signed_decimal(text) {
        Some(value) => if i64::MIN <= value <= i64::MAX {
            Some(value as i64)
        } else {
            None
        },
        None => None,
    }
}

/// The number that `digits` spell behind a sign.
pub open spec fn spelled(digits: Seq<char>, negative: bool) -> Option<int> {
    if !all_digits(digits) {
        None
    } else if negative {
        Some(-decimal_value(digits))
    } else {
        Some(decimal_value(digits))
    }
}

/// A number is at least the number that its leading digits spell.
pub proof fn lemma_decimal_prefix(digits: Seq<char>, k: int)
    requires
        0 <= k <= digits.len(),
        forall|i: int| 0 <= i < digits.len() ==> is_digit(#[trigger] digits[i]),
    ensures
        0 <= decimal_value(digits.take(k)) <= decimal_value(digits),
    decreases digits.len(),
{
    if digits.len() == 0 {
        assert(digits.take(k) =~= digits);
    } else if k == digits.len() {
        assert(digits.take(k) =~= digits);
        lemma_decimal_prefix(digits.drop_last(), k - 1);
    } else {
        lemma_decimal_prefix(digits.drop_last(), k);
        assert(digits.drop_last().take(k) =~= digits.take(k));
        assert(is_digit(digits[digits.len() - 1]));
    }
}

/// A text with a character outside ASCII spells no number.
proof fn lemma_number_is_ascii(text: Seq<char>)
    requires
        !is_ascii_chars(text),
    ensures
        signed_decimal(text) is None,
{
    let i = choose|i: int| 0 <= i < text.len() && !('\0' <= #[trigger] text[i] <= '\u{7f}');
    assert(!is_digit(text[i]));
    if i > 0 {
        assert(text.drop_first()[i - 1] == text[i]);
    }
}

/// Reads a signed 64-bit number: digits `0` to `9`, with at most one `+` or `-`
/// before them and nothing else around them.
pub fn parse_i64(text: &str) -> (r: Option<i64>)
    ensures
        r == parsed_i64(text@),
{
    if !text.is_ascii() {
        proof {
            lemma_number_is_ascii(text@);
        }
        return None;
    }
    let bytes = text.as_bytes();
    proof {
        is_ascii_chars_encode_utf8(text@);
    }
    let n = bytes.len();
    if n == 0 {
        return None;
    }
    let negative = bytes[0] == MINUS;
    let start: usize = if negative || bytes[0] == PLUS {
        1
    } else {
        0
    };
    if start == n {
        return None;
    }
    let ghost digits = text@.subrange(start as int, n as int);
    proof {
        assert(text@[0] as u8 == bytes@[0]);
        if start == 1 {
            assert(digits =~= text@.drop_first());
        } else {
            assert(digits =~= text@);
        }
    }
    let mut magnitude: u128 = 0;
    let mut i: usize = start;
    while i < n
        invariant
            start <= i <= n,
            n == bytes@.len(),
            n == text@.len(),
            digits == text@.subrange(start as int, n as int),
            signed_decimal(text@) == spelled(digits, negative),
            forall|k: int| 0 <= k < n ==> text@[k] as u8 == #[trigger] bytes@[k],
            forall|k: int| 0 <= k < n ==> '\0' <= #[trigger] text@[k] <= '\u{7f}',
            forall|k: int| 0 <= k < i - start ==> is_digit(#[trigger] digits[k]),
            magnitude == decimal_value(digits.take(i - start)),
            magnitude <= 0x8000_0000_0000_0000,
        decreases n - i,
    {
        let byte = bytes[i];
        proof {
            assert(digits[i - start] == text@[i as int]);
            assert(is_digit(text@[i as int]) <==> 48 <= byte <= 57);
        }
        if byte < ZERO || byte > NINE {
            return None;
        }
        proof {
            assert(digits.take(i + 1 - start).drop_last() =~= digits.take(i - start));
            assert(digit_value(text@[i as int]) == byte - 48);
        }
        magnitude = magnitude * 10 + (byte - ZERO) as u128;
        i += 1;
        if magnitude > 0x8000_0000_0000_0000 {
            proof {
                if all_digits(digits) {
                    lemma_decimal_prefix(digits, i - start);
                }
            }
            return None;
        }
    }
    proof {
        assert(digits.take(n - start) =~= digits);
    }
    if negative {
        if magnitude == 0x8000_0000_0000_0000 {
            Some(i64::MIN)
        } else {
            Some(-(magnitude as i64))
        }
    } else if magnitude > 0x7fff_ffff_ffff_ffff {
        None
    } else {
        Some(magnitude as i64)
    }
}

/// The character of the digit `d`.
pub open spec fn digit_char(d: nat) -> char {
    (48 + d) as char
}

/// `n` written in decimal, without leading zeros.
pub open spec fn decimal_text(n: nat) -> Seq<char>
    decreases n,
{
    if n < 10 {
        seq![digit_char(n)]
    } else {
        decimal_text(n / 10).push(digit_char(n % 10))
    }
}

/// `x` written in decimal, behind a minus sign where it is negative.
pub open spec fn signed_text(x: int) -> Seq<char> {
    if x < 0 {
        seq!['-'] + decimal_text((-x) as nat)
    } else {
        decimal_text(x as nat)
    }
}

/// The digits of a number spell the number.
pub proof fn lemma_decimal_text_value(n: nat)
    ensures
        all_digits(decimal_text(n)),
        decimal_value(decimal_text(n)) == n,
    decreases n,
{
    let last = digit_char(n % 10);
    assert(last as int == 48 + n % 10);
    assert(digit_value(last) == n % 10 && is_digit(last));
    if n >= 10 {
        lemma_decimal_text_value(n / 10);
        let text = decimal_text(n);
        assert(text.drop_last() =~= decimal_text(n / 10));
        assert(text.last() == last);
        assert forall|i: int| 0 <= i < text.len() implies is_digit(#[trigger] text[i]) by {
            if i < text.len() - 1 {
                assert(text[i] == decimal_text(n / 10)[i]);
            }
        }
    } else {
        reveal_with_fuel(decimal_value, 2);
        assert(decimal_text(n).drop_last() =~= Seq::<char>::empty());
        assert(decimal_text(n).last() == last);
    }
}

/// What is written is read back: a number is read from the text that it is
/// written as.
pub proof fn lemma_written_number_is_read_back(x: i64)
    ensures
        parsed_i64(signed_text(x as int)) == Some(x),
{
    let text = signed_text(x as int);
    if x < 0 {
        let digits = decimal_text((-x) as nat);
        lemma_decimal_text_value((-x) as nat);
        assert(text.drop_first() =~= digits);
        assert(text[0] == '-');
    } else {
        lemma_decimal_text_value(x as nat);
        assert(is_digit(text[0]));
    }
}

/// The digit `d` as a text.
fn digit_text(d: u64) -> (text: &'static str)
    requires
        d < 10,
    ensures
        text@ == seq![digit_char(d as nat)],
{
    proof {
        reveal_strlit("0");
        reveal_strlit("1");
        reveal_strlit("2");
        reveal_strlit("3");
        reveal_strlit("4");
        reveal_strlit("5");
        reveal_strlit("6");
        reveal_strlit("7");
        reveal_strlit("8");
        reveal_strlit("9");
    }
    let text = if d == 0 {
        "0"
    } else if d == 1 {
        "1"
    } else if d == 2 {
        "2"
    } else if d == 3 {
        "3"
    } else if d == 4 {
        "4"
    } else if d == 5 {
        "5"
    } else if d == 6 {
        "6"
    } else if d == 7 {
        "7"
    } else if d == 8 {
        "8"
    } else {
        "9"
    };
    assert(text@ =~= seq![digit_char(d as nat)]);
    text
}

/// Writes `n` in decimal behind `line`.
pub fn push_number(line: &mut String, n: u64)
    ensures
        final(line)@ == old(line)@ + decimal_text(n as nat),
    decreases n,
{
    if n >= 10 {
        push_number(line, n / 10);
    }
    line.append(digit_text(n % 10));
    assert(final(line)@ =~= old(line)@ + decimal_text(n as nat));
}

/// `n` written in decimal.
pub fn number_text(n: u64) -> (text: String)
    ensures
        text@ == decimal_text(n as nat),
{
    let mut text = String::new();
    push_number(&mut text, n);
    assert(Seq::<char>::empty() + decimal_text(n as nat) =~= decimal_text(n as nat));
    text
}

/// The size of `x` without its sign.
pub fn unsigned_size(x: i64) -> (size: u64)
    ensures
        size == if x < 0 {
            -x
        } else {
            x as int
        },
{
    if x >= 0 {
        x as u64
    } else if x == i64::MIN {
        0x8000_0000_0000_0000u64
    } else {
        (-x) as u64
    }
}

/// `x` written in decimal, behind a minus sign where it is negative.
pub fn signed_number_text(x: i64) -> (text: String)
    ensures
        text@ == signed_text(x as int),
{
    let mut text = String::new();
    if x < 0 {
        proof {
            reveal_strlit("-");
        }
        text.append("-");
        assert(text@ =~= seq!['-']);
    }
    push_number(&mut text, unsigned_size(x));
    assert(text@ =~= signed_text(x as int));
    text
}

} // verus!
