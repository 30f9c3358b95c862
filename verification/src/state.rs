//! The editing state as a mathematical value, and what each key does to it.

use vstd::prelude::*;
use crate::bounds::clamp_int;
use crate::lines::{line_break, line_start, split_lines};

verus! {

/// A key press, classified by what it means to the widget.
#[derive(Clone, Copy, Debug, PartialEq, Eq)]
pub enum Key {
    /// A character, to be put in at the cursor.
    Character(char),
    /// Breaks the line at the cursor.
    Enter,
    /// Puts in a tab character at the cursor.
    Tab,
    /// Removes the character before the cursor.
    Backspace,
    /// Moves the cursor to the line above.
    Up,
    /// Moves the cursor to the line below.
    Down,
    /// Moves the cursor one column to the left, within its line.
    Left,
    /// Moves the cursor one column to the right, within its line.
    Right,
    /// Asks the host to end the editing session; the buffer ignores it.
    Escape,
    /// Any key the widget has no use for.
    Other,
}

/// The text of a buffer together with the position of its cursor.
pub struct EditState {
    /// The whole text, with a line break between any two lines.
    pub content: Seq<char>,
    /// The line the cursor is on, counted from zero.
    pub row: int,
    /// The number of characters of that line to the left of the cursor.
    pub col: int,
}

/// The state with text `content` whose cursor is as close to `(row, col)` as
/// the text allows: the row is clamped to the existing lines first, then the
/// column to the length of the line at that row.
pub open spec fn place(content: Seq<char>, row: int, col: int) -> EditState {
    let lines = split_lines(content);
    let r = clamp_int(row, 0, lines.len() - 1);
    let c = clamp_int(col, 0, lines[r].len() as int);
    EditState { content, row: r, col: c }
}

impl EditState {
    /// The lines of the text.
    pub open spec fn lines(self) -> Seq<Seq<char>> {
        split_lines(self.content)
    }

    /// The index of the last line.
    pub open spec fn max_row(self) -> int {
        self.lines().len() - 1
    }

    /// The length of line `row`.
    pub open spec fn line_len(self, row: int) -> int {
        self.lines()[row].len() as int
    }

    /// The largest column on the cursor's line: the length of that line. For
    /// a cursor below the last line it is the length of the whole text.
    pub open spec fn max_col(self) -> int {
        if 0 <= self.row <= self.max_row() {
            self.line_len(self.row)
        } else {
            self.content.len() as int
        }
    }

    /// The cursor is on an existing line and not beyond its end.
    pub open spec fn in_bounds(self) -> bool {
        &&& 0 <= self.row <= self.max_row()
        &&& 0 <= self.col <= self.line_len(self.row)
    }

    /// The same text with the cursor moved into bounds.
    pub open spec fn clamped(self) -> EditState {
        place(self.content, self.row, self.col)
    }

    /// The cursor as a single offset into the text: the place where
    /// characters are inserted, and behind the one that Backspace removes.
    pub open spec fn offset(self) -> int {
        line_start(self.lines(), self.row) + self.col
    }

    /// The state after `c` was typed: `c` stands at the cursor's former
    /// place and the cursor behind it. A typed line break ends the cursor's
    /// line there, so the cursor, which does not leave its line, stays where
    /// it was.
    pub open spec fn typed(self, c: char) -> EditState {
        place(self.content.insert(self.offset(), c), self.row, self.col + 1)
    }

    /// The state after the line was broken at the cursor: the cursor is at
    /// the start of the part that followed it.
    pub open spec fn broken(self) -> EditState {
        place(self.content.insert(self.offset(), line_break()), self.row + 1, 0)
    }

    /// The state after the character before the cursor was removed. At the
    /// start of the text there is none, and nothing changes. At the start of
    /// a later line the break before it goes: the line is joined to the one
    /// above it, and the cursor stands where the two meet.
    pub open spec fn erased(self) -> EditState {
        if self.offset() <= 0 {
            self
        } else if self.col > 0 {
            place(self.content.remove(self.offset() - 1), self.row, self.col - 1)
        } else {
            place(
                self.content.remove(self.offset() - 1),
                self.row - 1,
                self.line_len(self.row - 1),
            )
        }
    }

    /// The state after `key` was pressed. The cursor is brought into bounds
    /// before the key acts and again after it.
    pub open spec fn step(self, key: Key) -> EditState {
        let s = self.clamped();
        match key {
            Key::Character(c) => s.typed(c),
            Key::Tab => s.typed('\t'),
            Key::Enter => s.broken(),
            Key::Backspace => s.erased(),
            Key::Up => place(s.content, s.row - 1, s.col),
            Key::Down => place(s.content, s.row + 1, s.col),
            Key::Left => place(s.content, s.row, s.col - 1),
            Key::Right => place(s.content, s.row, s.col + 1),
            Key::Escape => s,
            Key::Other => s,
        }
    }
}

} // verus!
