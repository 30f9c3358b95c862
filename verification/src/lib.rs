//! A multi-line text editing widget for terminals: an editable buffer, a
//! two-dimensional cursor and a scrolling, line-numbered view of the buffer.
//!
//! The widget neither reads keys nor draws. Its host hands it one key press
//! at a time and asks it for a frame: the lines to show and the place of the
//! cursor on the screen.

pub mod bounds;
pub mod edits;
pub mod format;
pub mod frame;
pub mod laws;
pub mod lines;
pub mod state;
pub mod strings;
pub mod widget;

pub use bounds::clamp;
pub use format::{pad, Align};
pub use frame::Frame;
pub use state::Key;
pub use widget::TextBox;
