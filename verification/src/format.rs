//! The text of a numbered line: decimal numbers, padding, and the gutter
//! that separates a line's number from its text.

use vstd::prelude::*;
use vstd::string::{StrSliceExecFns, StringExecFns};

verus! {

/// The side to which a padded text is pushed.
#[derive(Clone, Copy, Debug, PartialEq, Eq)]
pub enum Align {
    /// The text starts the field, the filling follows it.
    Left,
    /// The filling starts the field, the text ends it.
    Right,
}

/// The character for the digit `d`, for `d` from 0 to 9.
pub open spec fn digit(d: int) -> char {
    (d + 48) as char
}

/// The decimal numeral of `n`, without leading zeros.
pub open spec fn decimal(n: nat) -> Seq<char>
    decreases n,
{
    if n < 10 {
        seq![digit(n as int)]
    } else {
        decimal(n / 10).push(digit((n % 10) as int))
    }
}

/// `n` blanks; none for a negative `n`.
pub open spec fn blanks(n: int) -> Seq<char> {
    Seq::new(
        if n < 0 {
            0nat
        } else {
            n as nat
        },
        |i: int| ' ',
    )
}

/// `text` filled up with blanks to `len` characters, on the side that
/// `align` leaves free. A text of `len` characters or more stays as it is.
pub open spec fn padded(text: Seq<char>, len: int, align: Align) -> Seq<char> {
    match align {
        Align::Right => blanks(len - text.len()) + text,
        Align::Left => text + blanks(len - text.len()),
    }
}

/// What stands between a line's number and its text.
pub open spec fn gutter() -> Seq<char> {
    seq![' ', '|', ' ']
}

/// The line `text` as it is shown: its number, right-aligned in `width`
/// columns, then the gutter, then the text.
pub open spec fn numbered(number: nat, width: int, text: Seq<char>) -> Seq<char> {
    padded(decimal(number), width, Align::Right) + gutter() + text
}

/// A larger number has no fewer digits.
pub proof fn lemma_decimal_len_grows(a: nat, b: nat)
    requires
        a <= b,
    ensures
        1 <= decimal(a).len() <= decimal(b).len(),
    decreases b,
{
    if a >= 10 {
        lemma_decimal_len_grows(a / 10, b / 10);
    }
}

/// The character for the digit `d`.
pub fn digit_char(d: u8) -> (c: char)
    requires
        d < 10,
    ensures
        c == digit(d as int),
{
    (d + 48) as char
}

/// Appends the decimal numeral of `n` to `s`.
pub fn push_decimal(s: &mut String, n: usize)
    ensures
        final(s)@ == old(s)@ + decimal(n as nat),
    decreases n,
{
    if n >= 10 {
        push_decimal(s, n / 10);
    }
    s.push(digit_char((n % 10) as u8));
}

/// The decimal numeral of `n`.
pub fn decimal_string(n: usize) -> (s: String)
    ensures
        s@ == decimal(n as nat),
{
    let mut s = String::new();
    push_decimal(&mut s, n);
    s
}

/// Fills `text` up with blanks to `len` characters.
pub fn pad(text: String, len: usize, align: Align) -> (out: String)
    ensures
        out@ == padded(text@, len as int, align),
{
    let have = text.as_str().unicode_len();
    let mut fill = String::new();
    let mut i: usize = have;
    while i < len
        invariant
            have <= i,
            i <= len || i == have,
            fill@ == blanks(i - have),
        decreases len - i,
    {
        fill.push(' ');
        i += 1;
    }
    match align {
        Align::Right => {
            fill.append(text.as_str());
            fill
        },
        Align::Left => {
            let mut out = text;
            out.append(fill.as_str());
            out
        },
    }
}

/// The line `text` as it is shown under the number `number`.
pub fn format_line(number: usize, width: usize, text: &str) -> (out: String)
    ensures
        out@ == numbered(number as nat, width as int, text@),
{
    let mut out = pad(decimal_string(number), width, Align::Right);
    proof {
        reveal_strlit(" | ");
    }
    out.append(" | ");
    out.append(text);
    out
}

} // verus!
