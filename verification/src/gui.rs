//! What passes between the editor and the terminal: keys coming in, drawing
//! commands going out.

use vstd::prelude::*;

verus! {

/// A colour by its red, green and blue parts.
#[derive(Clone, Copy, PartialEq, Eq, Structural, Debug)]
pub struct Rgb {
    pub red: u8,
    pub green: u8,
    pub blue: u8,
}

/// One key press.
#[derive(Clone, Copy, PartialEq, Eq, Structural, Debug)]
pub enum Key {
    Backspace,
    Left,
    Right,
    Up,
    Down,
    Home,
    End,
    PageUp,
    PageDown,
    BackTab,
    Delete,
    Insert,
    /// A function key, by its number.
    F(u8),
    /// A plain character.
    Char(char),
    /// A character typed with Alt held.
    Alt(char),
    /// A character typed with Ctrl held.
    Ctrl(char),
    Null,
    Esc,
}

/// A cell of the screen, counted from 0 at the top left.
#[derive(Clone, Copy, PartialEq, Eq, Structural, Debug, Default)]
pub struct Position {
    pub x: usize,
    pub y: usize,
}

/// The text area of the terminal: its width in columns and its height in
/// rows, the two rows kept for the status bar and the message bar not
/// counted.
#[derive(Clone, Copy, PartialEq, Eq, Structural, Debug)]
pub struct Size {
    pub height: u16,
    pub width: u16,
}

/// One thing for the terminal to do.
#[derive(PartialEq, Eq, Debug)]
pub enum Command {
    HideCursor,
    ShowCursor,
    ClearScreen,
    ClearCurrentLine,
    /// Put the terminal's cursor on a cell.
    Goto(Position),
    SetBgColor(Rgb),
    ResetBgColor,
    SetFgColor(Rgb),
    ResetFgColor,
    /// Write text at the cursor.
    Print(String),
    Flush,
}

/// A command with its text as a plain value.
pub enum CommandView {
    HideCursor,
    ShowCursor,
    ClearScreen,
    ClearCurrentLine,
    Goto(Position),
    SetBgColor(Rgb),
    ResetBgColor,
    SetFgColor(Rgb),
    ResetFgColor,
    Print(Seq<char>),
    Flush,
}

impl View for Command {
    type V = CommandView;

    open spec fn view(&self) -> CommandView {
        match *self {
            Command::HideCursor => CommandView::HideCursor,
            Command::ShowCursor => CommandView::ShowCursor,
            Command::ClearScreen => CommandView::ClearScreen,
            Command::ClearCurrentLine => CommandView::ClearCurrentLine,
            Command::Goto(at) => CommandView::Goto(at),
            Command::SetBgColor(color) => CommandView::SetBgColor(color),
            Command::ResetBgColor => CommandView::ResetBgColor,
            Command::SetFgColor(color) => CommandView::SetFgColor(color),
            Command::ResetFgColor => CommandView::ResetFgColor,
            Command::Print(text) => CommandView::Print(text@),
            Command::Flush => CommandView::Flush,
        }
    }
}

/// The commands of a list as plain values.
pub open spec fn command_views(commands: Seq<Command>) -> Seq<CommandView> {
    commands.map_values(|command: Command| command@)
}

} // verus!
