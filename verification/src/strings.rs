//! Conversions between strings and sequences of characters.

use vstd::prelude::*;

verus! {

/// `String::push` appends one character to the string and changes nothing
/// else: afterwards the string holds its former characters followed by `ch`.
pub assume_specification[ String::push ](s: &mut String, ch: char)
    ensures
        final(s)@ == old(s)@.push(ch),
;

/// The characters of `s`, in order.
pub fn chars_of(s: &str) -> (chars: Vec<char>)
    ensures
        chars@ == s@,
{
    let mut chars: Vec<char> = Vec::new();
    for c in it: s.chars()
        invariant
            it.seq() == s@,
            chars@ == s@.take(it.index() as int),
    {
        chars.push(c);
    }
    chars
}

/// The string that spells `chars`.
pub fn string_of(chars: &Vec<char>) -> (s: String)
    ensures
        s@ == chars@,
{
    let mut s = String::new();
    let mut i: usize = 0;
    while i < chars.len()
        invariant
            i <= chars.len(),
            s@ == chars@.take(i as int),
        decreases chars.len() - i,
    {
        s.push(chars[i]);
        i += 1;
    }
    s
}

/// The text `s` with `c` put in before its character number `pos`, or at
/// its end when `pos` is its length.
pub fn insert_char(s: &str, pos: usize, c: char) -> (text: String)
    requires
        pos <= s@.len(),
    ensures
        text@ == s@.insert(pos as int, c),
        text@.len() == s@.len() + 1,
        text@.len() <= usize::MAX,
{
    let mut chars = chars_of(s);
    chars.insert(pos, c);
    let text = string_of(&chars);
    assert(chars.len() == s@.len() + 1);
    text
}

/// The text `s` without its character number `pos`.
pub fn remove_char(s: &str, pos: usize) -> (text: String)
    requires
        pos < s@.len(),
    ensures
        text@ == s@.remove(pos as int),
        text@.len() == s@.len() - 1,
{
    let mut chars = chars_of(s);
    chars.remove(pos);
    string_of(&chars)
}

} // verus!
