//! What a text box shows: the numbered lines of its window and the place of
//! the cursor on the screen.

use vstd::prelude::*;
use crate::bounds::clamp_int;
use crate::format::{decimal, numbered};
use crate::state::EditState;

verus! {

/// One rendering of a text box, ready to be drawn.
#[derive(Debug, PartialEq, Eq)]
pub struct Frame {
    /// The lines of the window from top to bottom, each with its number.
    pub lines: Vec<String>,
    /// The column of the screen on which the cursor stands.
    pub cursor_x: i128,
    /// The row of the screen on which the cursor stands.
    pub cursor_y: i128,
}

/// A rendering as a mathematical value.
pub struct FrameView {
    pub lines: Seq<Seq<char>>,
    pub cursor_x: int,
    pub cursor_y: int,
}

impl View for Frame {
    type V = FrameView;

    open spec fn view(&self) -> FrameView {
        FrameView {
            lines: self.lines.deep_view(),
            cursor_x: self.cursor_x as int,
            cursor_y: self.cursor_y as int,
        }
    }
}

/// The width of the column of line numbers: the number of digits of the
/// number of lines.
pub open spec fn number_width(total: nat) -> int {
    decimal(total).len() as int
}

/// The first line of the window: `visible` lines above the cursor, or the
/// first line of the text.
pub open spec fn window_start(state: EditState, visible: int) -> int {
    clamp_int(state.row - visible, 0, state.lines().len() as int)
}

/// The line after the last of the window: `visible` lines below the cursor,
/// or the end of the text.
pub open spec fn window_end(state: EditState, visible: int) -> int {
    clamp_int(state.row + visible, 0, state.lines().len() as int)
}

/// What is shown of `state` through a window of `visible` lines.
///
/// The window holds the lines from `window_start` up to `window_end`, each
/// numbered from one as in the whole text. The cursor stands to the right of
/// the line numbers and the gutter, which takes three columns, and on the row
/// of its line, but no lower than row `visible`.
pub open spec fn frame_of(state: EditState, visible: int) -> FrameView {
    let all = state.lines();
    let width = number_width(all.len());
    let start = window_start(state, visible);
    let end = window_end(state, visible);
    FrameView {
        lines: Seq::new(
            (end - start) as nat,
            |i: int| numbered((start + i + 1) as nat, width, all[start + i]),
        ),
        cursor_x: state.col + width + 3,
        cursor_y: clamp_int(state.row, 0, visible),
    }
}

} // verus!
