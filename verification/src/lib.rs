//! The editing core of a small modeless terminal text editor: rows of text
//! indexed by grapheme cluster, a document of rows, and the editor state
//! machine that turns key presses into edits, cursor motions and frames.

pub mod document;
pub mod editor;
pub mod grapheme;
pub mod gui;
pub mod row;
pub mod text;
