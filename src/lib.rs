//! The text buffer and cursor engine of a terminal text editor: rows of
//! codepoints, the edits on them, and a cursor and viewport that follow them.

pub mod document;
pub mod editor;

pub use document::{Document, Row};
pub use editor::{Action, Editor, Key, Position, ScreenLine, Size};
