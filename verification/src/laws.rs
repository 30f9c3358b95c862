//! Laws of editing: what holds of every state and every key.

use vstd::prelude::*;
use crate::edits::{
    lemma_broken, lemma_erased_joining, lemma_erased_within, lemma_offset_range, lemma_typed,
};
use crate::format::{decimal, lemma_decimal_len_grows, numbered, padded, Align};
use crate::frame::{frame_of, number_width, window_end, window_start};
use crate::lines::{lemma_split_lines_shape, line_break};
use crate::state::{place, EditState, Key};

verus! {

/// The state after the keys `keys` were pressed one after another.
pub open spec fn run(m: EditState, keys: Seq<Key>) -> EditState
    decreases keys.len(),
{
    if keys.len() == 0 {
        m
    } else {
        run(m, keys.drop_last()).step(keys.last())
    }
}

/// Wherever a cursor is asked to go, it is put in bounds.
pub proof fn law_place_in_bounds(content: Seq<char>, row: int, col: int)
    ensures
        place(content, row, col).in_bounds(),
        place(content, row, col).content == content,
{
    lemma_split_lines_shape(content);
}

/// After any key, pressed in any state, the cursor is on an existing line
/// and not beyond its end.
pub proof fn law_step_in_bounds(m: EditState, key: Key)
    ensures
        m.step(key).in_bounds(),
{
    let s = m.clamped();
    lemma_split_lines_shape(m.content);
    law_place_in_bounds(m.content, m.row, m.col);
    match key {
        Key::Character(c) => {
            lemma_split_lines_shape(s.content.insert(s.offset(), c));
        },
        Key::Tab => {
            lemma_split_lines_shape(s.content.insert(s.offset(), '\t'));
        },
        Key::Enter => {
            lemma_split_lines_shape(s.content.insert(s.offset(), line_break()));
        },
        Key::Backspace => {
            lemma_split_lines_shape(s.content.remove(s.offset() - 1));
        },
        _ => {},
    }
}

/// After each key of any sequence of keys, pressed from any state, the
/// cursor is in bounds.
pub proof fn law_run_in_bounds(m: EditState, keys: Seq<Key>)
    requires
        keys.len() > 0,
    ensures
        run(m, keys).in_bounds(),
{
    law_step_in_bounds(run(m, keys.drop_last()), keys.last());
}

/// Typing a character and then erasing gives back the text and the cursor as
/// they were, for every character but the line break.
pub proof fn law_type_then_erase(m: EditState, c: char)
    requires
        m.in_bounds(),
        c != line_break(),
    ensures
        m.step(Key::Character(c)).step(Key::Backspace) == m,
{
    lemma_offset_range(m);
    lemma_typed(m, c);
    let typed = m.typed(c);
    lemma_offset_range(typed);
    lemma_erased_within(typed);
    assert(typed.content.remove(typed.offset() - 1) =~= m.content);
}

/// Tab is typed like any other character: erasing after it gives back the
/// text and the cursor as they were.
pub proof fn law_tab_then_erase(m: EditState)
    requires
        m.in_bounds(),
    ensures
        m.step(Key::Tab) == m.step(Key::Character('\t')),
        m.step(Key::Tab).step(Key::Backspace) == m,
{
    law_type_then_erase(m, '\t');
}

/// Breaking a line and then erasing gives back the text and the cursor as
/// they were: the break and the join undo each other.
pub proof fn law_break_then_erase(m: EditState)
    requires
        m.in_bounds(),
    ensures
        m.step(Key::Enter).step(Key::Backspace) == m,
{
    lemma_offset_range(m);
    lemma_broken(m);
    let broken = m.broken();
    lemma_offset_range(broken);
    lemma_erased_joining(broken);
    assert(broken.content.remove(broken.offset() - 1) =~= m.content);
}

/// Erasing at the start of the text changes nothing.
pub proof fn law_erase_at_start(m: EditState)
    requires
        m.clamped().offset() == 0,
    ensures
        m.step(Key::Backspace).content == m.content,
        m.step(Key::Backspace) == m.clamped(),
{
}

/// Moving down goes to the next line and keeps the column, unless that line
/// is shorter: then the cursor stands at its end. On the last line the
/// cursor stays where it is.
pub proof fn law_down(m: EditState)
    requires
        m.in_bounds(),
    ensures
        m.step(Key::Down).content == m.content,
        m.row < m.max_row() ==> m.step(Key::Down).row == m.row + 1,
        m.row < m.max_row() ==> m.step(Key::Down).col == (if m.col > m.line_len(m.row + 1) {
            m.line_len(m.row + 1)
        } else {
            m.col
        }),
        m.row == m.max_row() ==> m.step(Key::Down) == m,
{
    lemma_offset_range(m);
}

/// Moving up goes to the line above in the same way; on the first line the
/// cursor stays where it is.
pub proof fn law_up(m: EditState)
    requires
        m.in_bounds(),
    ensures
        m.step(Key::Up).content == m.content,
        m.row > 0 ==> m.step(Key::Up).row == m.row - 1,
        m.row > 0 ==> m.step(Key::Up).col == (if m.col > m.line_len(m.row - 1) {
            m.line_len(m.row - 1)
        } else {
            m.col
        }),
        m.row == 0 ==> m.step(Key::Up) == m,
{
    lemma_offset_range(m);
}

/// Moving left or right stays on the line: at its start Left changes
/// nothing, at its end Right changes nothing.
pub proof fn law_sideways(m: EditState)
    requires
        m.in_bounds(),
    ensures
        m.step(Key::Left) == (EditState {
            col: if m.col > 0 {
                m.col - 1
            } else {
                0
            },
            ..m
        }),
        m.step(Key::Right) == (EditState {
            col: if m.col < m.line_len(m.row) {
                m.col + 1
            } else {
                m.col
            },
            ..m
        }),
{
    lemma_offset_range(m);
}

/// Escape and the keys that the widget has no use for change nothing.
pub proof fn law_ignored_keys(m: EditState)
    requires
        m.in_bounds(),
    ensures
        m.step(Key::Escape) == m,
        m.step(Key::Other) == m,
{
    lemma_offset_range(m);
}

/// A window of at least one line shows the line of the cursor, on the row
/// of the frame on which the cursor stands, and never shows more than twice
/// as many lines as it was asked for.
pub proof fn law_window_covers_cursor(m: EditState, visible: int)
    requires
        m.in_bounds(),
        visible >= 1,
    ensures
        window_start(m, visible) <= m.row < window_end(m, visible),
        frame_of(m, visible).cursor_y == m.row - window_start(m, visible),
        0 <= frame_of(m, visible).cursor_y < frame_of(m, visible).lines.len() <= 2 * visible,
        frame_of(m, visible).lines[frame_of(m, visible).cursor_y] == numbered(
            (m.row + 1) as nat,
            number_width(m.lines().len()),
            m.lines()[m.row],
        ),
{
}

/// The lines of a frame are the lines of the text, in order and without
/// gaps, under their own numbers.
pub proof fn law_frame_lines(m: EditState, visible: int, i: int)
    requires
        m.in_bounds(),
        visible >= 0,
        0 <= i < frame_of(m, visible).lines.len(),
    ensures
        0 <= window_start(m, visible) + i < m.lines().len(),
        frame_of(m, visible).lines[i] == numbered(
            (window_start(m, visible) + i + 1) as nat,
            number_width(m.lines().len()),
            m.lines()[window_start(m, visible) + i],
        ),
{
}

/// Every line number of a frame fills the column of numbers exactly, so the
/// text of every line starts in the same column of the screen: the one that
/// the cursor is counted from.
pub proof fn law_frame_text_column(m: EditState, visible: int, i: int)
    requires
        m.in_bounds(),
        visible >= 0,
        0 <= i < frame_of(m, visible).lines.len(),
    ensures
        frame_of(m, visible).lines[i].len() == number_width(m.lines().len()) + 3 + m.line_len(
            window_start(m, visible) + i,
        ),
        frame_of(m, visible).lines[i].skip(number_width(m.lines().len()) + 3) == m.lines()[
            window_start(m, visible) + i
        ],
        frame_of(m, visible).cursor_x == number_width(m.lines().len()) + 3 + m.col,
{
    let total = m.lines().len();
    let width = number_width(total);
    let row = window_start(m, visible) + i;
    let number = decimal((row + 1) as nat);
    lemma_decimal_len_grows((row + 1) as nat, total);
    assert(padded(number, width, Align::Right).len() == width);
}

} // verus!
