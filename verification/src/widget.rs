//! The text box: a buffer of text, a cursor in it, and the settings of the
//! window through which it is shown.

use vstd::prelude::*;
use vstd::string::StrSliceExecFns;
use crate::bounds::{clamp, clamp_int};
use crate::format::{decimal_string, format_line, numbered};
use crate::frame::{frame_of, Frame};
use crate::lines::{
    lemma_line_count_bound, lemma_line_start_increases, lemma_line_within_text,
    lemma_split_lines_shape, line_start, split_lines,
};
use crate::state::{EditState, Key};
use crate::strings::{chars_of, insert_char, remove_char};

verus! {

/// A multi-line text box.
pub struct TextBox {
    /// The text stored within the text box.
    pub text: String,
    /// The column of the screen at which the box is drawn.
    pub x: usize,
    /// The row of the screen at which the box is drawn.
    pub y: usize,
    /// The number of lines to show.
    pub lines: usize,
    /// Whether `lines` follows the height of the terminal.
    pub auto_update: bool,
    /// The column of the cursor, counted in characters from the start of
    /// its line.
    pub cursor_x: usize,
    /// The line of the cursor, counted from the first line.
    pub cursor_y: usize,
}

impl View for TextBox {
    type V = EditState;

    open spec fn view(&self) -> EditState {
        EditState { content: self.text@, row: self.cursor_y as int, col: self.cursor_x as int }
    }
}

impl TextBox {
    /// `self` and `other` are drawn at the same place, with the same number
    /// of lines and the same way of choosing it.
    pub open spec fn same_window(&self, other: &TextBox) -> bool {
        &&& self.x == other.x
        &&& self.y == other.y
        &&& self.lines == other.lines
        &&& self.auto_update == other.auto_update
    }

    /// A text box drawn at the top left corner of the screen, with the cursor
    /// at the start of `text`. Without a `text` the box is empty, without
    /// `lines` it shows five, and without `auto_update` that number is fixed.
    pub fn new(
        text: Option<String>,
        lines: Option<usize>,
        auto_update: Option<bool>,
    ) -> (tb: TextBox)
        ensures
            tb.text@ == (match text {
                Some(t) => t@,
                None => Seq::<char>::empty(),
            }),
            tb.lines == (match lines {
                Some(n) => n,
                None => 5usize,
            }),
            tb.auto_update == (match auto_update {
                Some(b) => b,
                None => false,
            }),
            tb.x == 0,
            tb.y == 0,
            tb.cursor_x == 0,
            tb.cursor_y == 0,
            tb@.in_bounds(),
    {
        let text = match text {
            Some(t) => t,
            None => String::new(),
        };
        proof {
            lemma_split_lines_shape(text@);
        }
        TextBox {
            text,
            lines: lines.unwrap_or(5),
            auto_update: auto_update.unwrap_or(false),
            cursor_x: 0,
            cursor_y: 0,
            x: 0,
            y: 0,
        }
    }

    /// The characters of the text.
    pub fn to_vec_chars(&self) -> (chars: Vec<char>)
        ensures
            chars@ == self.text@,
    {
        chars_of(self.text.as_str())
    }

    /// The lines of the text. A text that can be held has a length that can
    /// be counted, which the second clause records.
    pub fn to_vec(&self) -> (lines: Vec<String>)
        ensures
            lines.deep_view() == split_lines(self.text@),
            self.text@.len() <= usize::MAX,
    {
        let chars = self.to_vec_chars();
        let mut lines: Vec<String> = Vec::new();
        let mut current = String::new();
        let mut i: usize = 0;
        while i < chars.len()
            invariant
                i <= chars.len(),
                lines.deep_view().push(current@) == split_lines(chars@.take(i as int)),
            decreases chars.len() - i,
        {
            let c = chars[i];
            let ghost before = lines.deep_view();
            let ghost line = current@;
            if c == '\n' {
                lines.push(current);
                current = String::new();
                proof {
                    assert(lines.deep_view() =~= before.push(line));
                }
            } else {
                current.push(c);
                proof {
                    assert(lines.deep_view() =~= before);
                    assert(before.push(line).update(before.len() as int, line.push(c))
                        =~= before.push(line.push(c)));
                }
            }
            i += 1;
            proof {
                assert(chars@.take(i as int).drop_last() =~= chars@.take(i - 1));
            }
        }
        proof {
            assert(chars@.take(i as int) =~= chars@);
        }
        let ghost before = lines.deep_view();
        let ghost line = current@;
        lines.push(current);
        proof {
            assert(lines.deep_view() =~= before.push(line));
        }
        lines
    }

    /// The index of the last line: the number of line breaks in the text.
    pub fn max_y(&self) -> (rows: usize)
        ensures
            rows == self@.max_row(),
    {
        let chars = self.to_vec_chars();
        let mut rows: usize = 0;
        let mut i: usize = 0;
        while i < chars.len()
            invariant
                i <= chars.len(),
                rows <= i,
                rows + 1 == split_lines(chars@.take(i as int)).len(),
            decreases chars.len() - i,
        {
            if chars[i] == '\n' {
                rows += 1;
            }
            i += 1;
            proof {
                assert(chars@.take(i as int).drop_last() =~= chars@.take(i - 1));
            }
        }
        proof {
            assert(chars@.take(i as int) =~= chars@);
        }
        rows
    }

    /// The largest column on the cursor's line: the length of that line, or
    /// of the whole text when the cursor is below the last line.
    pub fn max_x(&self) -> (cols: usize)
        ensures
            cols == self@.max_col(),
    {
        let lines = self.to_vec();
        if self.cursor_y < lines.len() {
            lines[self.cursor_y].as_str().unicode_len()
        } else {
            self.text.as_str().unicode_len()
        }
    }

    /// The length of line `y`.
    pub fn len_of_line(&self, y: usize) -> (len: usize)
        requires
            y <= self@.max_row(),
        ensures
            len == self@.line_len(y as int),
    {
        let lines = self.to_vec();
        lines[y].as_str().unicode_len()
    }

    /// Brings the cursor's line into the text.
    pub fn update_y(&mut self)
        ensures
            final(self).text == old(self).text,
            final(self).same_window(old(self)),
            final(self).cursor_y == clamp_int(old(self).cursor_y as int, 0, old(self)@.max_row()),
            final(self).cursor_x == old(self).cursor_x,
    {
        let max = self.max_y();
        self.cursor_y = clamp(self.cursor_y as i128, 0, max as i128) as usize;
    }

    /// Brings the cursor's column into its line.
    pub fn update_x(&mut self)
        ensures
            final(self).text == old(self).text,
            final(self).same_window(old(self)),
            final(self).cursor_y == old(self).cursor_y,
            final(self).cursor_x == clamp_int(old(self).cursor_x as int, 0, old(self)@.max_col()),
    {
        let max = self.max_x();
        self.cursor_x = clamp(self.cursor_x as i128, 0, max as i128) as usize;
    }

    /// Brings the cursor into bounds: first its line, then its column.
    pub fn update_pos(&mut self)
        ensures
            final(self).text == old(self).text,
            final(self).same_window(old(self)),
            final(self)@ == old(self)@.clamped(),
            final(self)@.in_bounds(),
    {
        proof {
            lemma_split_lines_shape(self.text@);
        }
        self.update_y();
        self.update_x();
    }

    /// The cursor as an offset into the text, counted in characters. A cursor
    /// out of bounds counts from where `update_pos` would put it.
    pub fn get_pos(&self) -> (pos: usize)
        ensures
            pos == self@.clamped().offset(),
            pos <= self.text@.len(),
    {
        let lines = self.to_vec();
        proof {
            lemma_split_lines_shape(self.text@);
        }
        let row = clamp(self.cursor_y as i128, 0, (lines.len() - 1) as i128) as usize;
        let len = lines[row].as_str().unicode_len();
        let col = clamp(self.cursor_x as i128, 0, len as i128) as usize;
        let mut pos: usize = 0;
        let mut i: usize = 0;
        while i < row
            invariant
                i <= row < lines.len(),
                lines.deep_view() == split_lines(self.text@),
                self.text@.len() <= usize::MAX,
                pos == line_start(split_lines(self.text@), i as int),
            decreases row - i,
        {
            proof {
                lemma_line_start_increases(split_lines(self.text@), i + 1, row as int);
                lemma_line_within_text(self.text@, row as int);
            }
            pos = pos + lines[i].as_str().unicode_len() + 1;
            i += 1;
        }
        proof {
            lemma_line_within_text(self.text@, row as int);
        }
        pos + col
    }

    /// Applies one key press: edits the text or moves the cursor as
    /// `EditState::step` says, and leaves the cursor in bounds.
    pub fn key_event(&mut self, pressed: Key)
        ensures
            final(self)@ == old(self)@.step(pressed),
            final(self)@.in_bounds(),
            final(self).same_window(old(self)),
    {
        self.update_pos();
        proof {
            lemma_split_lines_shape(self.text@);
            lemma_line_count_bound(self.text@);
            lemma_line_within_text(self.text@, self.cursor_y as int);
        }
        match pressed {
            Key::Backspace => {
                let pos = self.get_pos();
                if pos > 0 {
                    if self.cursor_x > 0 {
                        self.text = remove_char(self.text.as_str(), pos - 1);
                        self.cursor_x = self.cursor_x - 1;
                    } else {
                        let joint = self.len_of_line(self.cursor_y - 1);
                        self.text = remove_char(self.text.as_str(), pos - 1);
                        self.cursor_y = self.cursor_y - 1;
                        self.cursor_x = joint;
                    }
                }
            },
            Key::Enter => {
                let pos = self.get_pos();
                self.text = insert_char(self.text.as_str(), pos, '\n');
                self.cursor_y = self.cursor_y + 1;
                self.cursor_x = 0;
            },
            Key::Tab => {
                let pos = self.get_pos();
                self.text = insert_char(self.text.as_str(), pos, '\t');
                self.cursor_x = self.cursor_x + 1;
            },
            Key::Down => {
                let max = self.max_y();
                self.cursor_y = clamp(self.cursor_y as i128 + 1, 0, max as i128) as usize;
            },
            Key::Up => {
                let max = self.max_y();
                self.cursor_y = clamp(self.cursor_y as i128 - 1, 0, max as i128) as usize;
            },
            Key::Left => {
                let max = self.max_x();
                self.cursor_x = clamp(self.cursor_x as i128 - 1, 0, max as i128) as usize;
            },
            Key::Right => {
                let max = self.max_x();
                self.cursor_x = clamp(self.cursor_x as i128 + 1, 0, max as i128) as usize;
            },
            Key::Character(c) => {
                let pos = self.get_pos();
                self.text = insert_char(self.text.as_str(), pos, c);
                self.cursor_x = self.cursor_x + 1;
            },
            Key::Escape => {},
            Key::Other => {},
        }
        proof {
            lemma_split_lines_shape(self.text@);
        }
        self.update_pos();
    }

    /// Takes the height of the terminal as the number of lines to show.
    pub fn update_lines(&mut self, height: usize)
        ensures
            *final(self) == (TextBox { lines: height, ..*old(self) }),
    {
        self.lines = height;
    }

    /// Computes what is to be drawn, and where the cursor belongs.
    ///
    /// The cursor is brought into bounds first. A box whose `auto_update` is
    /// set then takes `height`, the height of the terminal, as its number of
    /// lines. The frame shows the lines around the cursor as `frame_of`
    /// says. Nothing is drawn: that is left to the caller.
    pub fn render(&mut self, height: usize) -> (frame: Frame)
        ensures
            final(self).text == old(self).text,
            final(self)@ == old(self)@.clamped(),
            final(self)@.in_bounds(),
            final(self).x == old(self).x,
            final(self).y == old(self).y,
            final(self).auto_update == old(self).auto_update,
            final(self).lines == (if old(self).auto_update {
                height
            } else {
                old(self).lines
            }),
            frame@ == frame_of(final(self)@, final(self).lines as int),
    {
        self.update_pos();
        if self.auto_update {
            self.update_lines(height);
        }
        let lines = self.to_vec();
        let total = lines.len();
        let width = decimal_string(total).as_str().unicode_len();
        let starting = clamp(self.cursor_y as i128 - self.lines as i128, 0, total as i128) as usize;
        let ending = clamp(self.cursor_y as i128 + self.lines as i128, 0, total as i128) as usize;
        let mut shown: Vec<String> = Vec::new();
        let mut i: usize = starting;
        while i < ending
            invariant
                starting <= i <= ending,
                ending <= total,
                total == lines.len(),
                shown.len() == i - starting,
                forall|k: int|
                    0 <= k < shown.len() ==> (#[trigger] shown[k])@ == numbered(
                        (starting + k + 1) as nat,
                        width as int,
                        lines[starting + k]@,
                    ),
            decreases ending - i,
        {
            shown.push(format_line(i + 1, width, lines[i].as_str()));
            i += 1;
        }
        let frame = Frame {
            lines: shown,
            cursor_x: self.cursor_x as i128 + width as i128 + 3,
            cursor_y: clamp(self.cursor_y as i128, 0, self.lines as i128),
        };
        proof {
            assert(frame@.lines =~= frame_of(self@, self.lines as int).lines);
        }
        frame
    }
}

} // verus!
