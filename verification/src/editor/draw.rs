//! What the editor's state looks like on the terminal: the rows on screen,
//! the status bar, the message bar and the cursor, as a list of commands.

use crate::editor::{Editor, EditorView};
use crate::gui::{command_views, Command, CommandView, Position, Rgb};
use crate::row::{lemma_rendered_end, rendered};
use crate::text::{blank, decimal, spaces, to_decimal, truncate, truncated};
use vstd::prelude::*;
use vstd::string::*;

verus! {

/// The grey of the status bar's text: the level of each of its colour parts.
pub const STATUS_BAR_FG: u8 = 63;

/// The grey of the status bar's background.
pub const STATUS_BAR_BG: u8 = 239;

/// The grey whose red, green and blue parts all are `level`.
pub open spec fn grey(level: u8) -> Rgb {
    Rgb { red: level, green: level, blue: level }
}

/// How long a status message stays on the message bar, in milliseconds.
pub const MESSAGE_LIFETIME: u64 = 5000;

/// What ends every printed line: a carriage return and a line feed.
pub open spec fn line_end() -> Seq<char> {
    "\r\n"@
}

/// The greeting shown in an empty document.
pub open spec fn welcome_text() -> Seq<char> {
    "Hecto editor -- version 0.1.0"@
}

/// The greeting's line on a screen `width` columns wide: a tilde, then the
/// greeting, cut to `width` characters, after one space less than half of
/// the columns it leaves free.
pub open spec fn welcome_line(width: nat) -> Seq<char> {
    let len = welcome_text().len();
    let padding = (if width > len {
        width - len
    } else {
        0
    }) / 2;
    "~"@ + blank(
        if padding > 0 {
            (padding - 1) as nat
        } else {
            0
        },
    ) + truncated(welcome_text(), width)
}

impl EditorView {
    /// What is printed on row `r` of the screen: the part of the document's
    /// row that is on screen if there is a row there, the greeting a third
    /// of the way down an empty document, and a tilde anywhere else.
    pub open spec fn screen_row(self, r: int) -> Seq<char> {
        let index = r + self.offset.y;
        if index < self.document.rows.len() {
            rendered(
                self.document.rows[index],
                self.offset.x as int,
                self.offset.x + self.size.width,
            )
        } else if self.document.rows.len() == 0 && r == self.size.height / 3 {
            welcome_line(self.size.width as nat)
        } else {
            "~"@
        }
    }

    /// The commands that draw the first `rows` rows of the screen: for each
    /// row the line is cleared and the row is printed.
    pub open spec fn rows_frame_to(self, rows: nat) -> Seq<CommandView> {
        Seq::new(
            2 * rows,
            |i: int|
                if i % 2 == 0 {
                    CommandView::ClearCurrentLine
                } else {
                    CommandView::Print(self.screen_row(i / 2) + line_end())
                },
        )
    }

    /// The commands that draw the text area, row by row.
    pub open spec fn rows_frame(self) -> Seq<CommandView> {
        self.rows_frame_to(self.size.height as nat)
    }

    /// The left part of the status bar: the file name, the number of rows,
    /// and a mark if there are unsaved changes.
    pub open spec fn status_left(self) -> Seq<char> {
        let name = match self.document.filename {
            Some(name) => name,
            None => "[No Name]"@,
        };
        name + " - "@ + decimal(self.document.rows.len()) + " lines "@ + (if self.document.dirty {
            "(modified)"@
        } else {
            Seq::empty()
        })
    }

    /// The right part of the status bar: the cursor's row, counted from 1,
    /// and the number of rows.
    pub open spec fn status_right(self) -> Seq<char> {
        let line = if self.cursor.y < usize::MAX {
            (self.cursor.y + 1) as nat
        } else {
            usize::MAX as nat
        };
        decimal(line) + "/"@ + decimal(self.document.rows.len())
    }

    /// The text of the status bar: its left and right parts with as many
    /// spaces between them as it takes to fill the width of the screen, cut
    /// to that width.
    pub open spec fn status_bar_text(self) -> Seq<char> {
        let left = self.status_left();
        let right = self.status_right();
        let len = left.len() + right.len();
        let width = self.size.width as nat;
        truncated(
            left + blank(
                if width > len {
                    (width - len) as nat
                } else {
                    0
                },
            ) + right,
            width,
        )
    }

    /// The commands that draw the status bar in its colours.
    pub open spec fn status_bar_frame(self) -> Seq<CommandView> {
        seq![
            CommandView::SetBgColor(grey(STATUS_BAR_BG)),
            CommandView::SetFgColor(grey(STATUS_BAR_FG)),
            CommandView::Print(self.status_bar_text() + line_end()),
            CommandView::ResetBgColor,
            CommandView::ResetFgColor,
        ]
    }

    /// Whether the status message is still shown at time `now`: it is, until
    /// it is five seconds old.
    pub open spec fn message_shown(self, now: u64) -> bool {
        now - self.status_time < MESSAGE_LIFETIME
    }

    /// The commands that draw the message bar: the line is cleared, and the
    /// status message, cut to the width of the screen, is printed while it is
    /// shown.
    pub open spec fn message_bar_frame(self, now: u64) -> Seq<CommandView> {
        if self.message_shown(now) {
            seq![
                CommandView::ClearCurrentLine,
                CommandView::Print(truncated(self.status, self.size.width as nat)),
            ]
        } else {
            seq![CommandView::ClearCurrentLine]
        }
    }

    /// The cell of the screen that the cursor is in.
    pub open spec fn screen_cursor(self) -> Position {
        Position {
            x: if self.cursor.x > self.offset.x {
                (self.cursor.x - self.offset.x) as usize
            } else {
                0
            },
            y: if self.cursor.y > self.offset.y {
                (self.cursor.y - self.offset.y) as usize
            } else {
                0
            },
        }
    }

    /// All the commands that draw the editor at time `now`. The cursor is
    /// hidden while the screen is cleared and drawn anew from the top left,
    /// then put in its cell and shown again. An editor that was asked to
    /// leave clears the screen and says goodbye.
    pub open spec fn frame(self, now: u64) -> Seq<CommandView> {
        seq![
            CommandView::HideCursor,
            CommandView::ClearScreen,
            CommandView::Goto(Position { x: 0, y: 0 }),
        ] + (if self.should_quit {
            seq![CommandView::ClearScreen, CommandView::Print("Goodbye."@ + line_end())]
        } else {
            self.rows_frame() + self.status_bar_frame() + self.message_bar_frame(now)
                + seq![CommandView::Goto(self.screen_cursor())]
        }) + seq![CommandView::ShowCursor, CommandView::Flush]
    }
}

fn emit(frame: &mut Vec<Command>, command: Command)
    ensures
        command_views(final(frame)@) == command_views(old(frame)@).push(command@),
{
    frame.push(command);
    assert(command_views(frame@) =~= command_views(old(frame)@).push(command@));
}

fn print_line(frame: &mut Vec<Command>, text: String)
    ensures
        command_views(final(frame)@) == command_views(old(frame)@).push(
            CommandView::Print(text@ + line_end()),
        ),
{
    let mut line = text;
    line.append("\r\n");
    emit(frame, Command::Print(line));
}

impl Editor {
    /// The greeting's line for the width of the screen.
    pub fn draw_welcome_message(&self) -> (line: String)
        ensures
            line@ == welcome_line(self@.size.width as nat),
    {
        let welcome_message = "Hecto editor -- version 0.1.0";
        let width = self.size.width as usize;
        let len = welcome_message.unicode_len();
        let padding = width.saturating_sub(len) / 2;
        let mut line = String::from_str("~");
        line.append(spaces(padding.saturating_sub(1)).as_str());
        line.append(truncate(welcome_message, width).as_str());
        line
    }

    /// The text of the status bar.
    pub fn draw_status_bar(&self) -> (status: String)
        ensures
            status@ == self@.status_bar_text(),
    {
        let width = self.size.width as usize;
        let count = to_decimal(self.document.len());
        let mut status = match self.document.file_name() {
            Some(name) => name.clone(),
            None => String::from_str("[No Name]"),
        };
        status.append(" - ");
        status.append(count.as_str());
        status.append(" lines ");
        if self.document.is_dirty() {
            status.append("(modified)");
        }
        assert(status@ =~= self@.status_left());
        let mut line_indicator = to_decimal(self.cursor_position.y.saturating_add(1));
        line_indicator.append("/");
        line_indicator.append(count.as_str());
        assert(line_indicator@ =~= self@.status_right());
        let len = status.as_str().unicode_len().saturating_add(
            line_indicator.as_str().unicode_len(),
        );
        if width > len {
            status.append(spaces(width - len).as_str());
        } else {
            assert(blank(0) =~= Seq::<char>::empty());
            assert(status@ + blank(0) =~= status@);
        }
        status.append(line_indicator.as_str());
        truncate(status.as_str(), width)
    }

    /// The status message as the message bar shows it at time `now`: cut to
    /// the width of the screen while it is shown, and nothing after that.
    pub fn draw_message_bar(&self, now: u64) -> (text: Option<String>)
        ensures
            text.is_some() == self@.message_shown(now),
            text.is_some() ==> text.unwrap()@ == truncated(self@.status, self@.size.width as nat),
    {
        if now.saturating_sub(self.status_message.time) < MESSAGE_LIFETIME {
            Some(truncate(self.status_message.text.as_str(), self.size.width as usize))
        } else {
            None
        }
    }

    /// What is printed on row `terminal_row` of the screen.
    pub fn draw_row(&self, terminal_row: u16) -> (line: String)
        ensures
            line@ == self@.screen_row(terminal_row as int),
    {
        let width = self.size.width as usize;
        let index = (terminal_row as usize).checked_add(self.offset.y);
        let row = match index {
            Some(index) => self.document.row(index),
            None => None,
        };
        match row {
            Some(row) => {
                let start = self.offset.x;
                let end = self.offset.x.saturating_add(width);
                let line = row.render(start, end);
                proof {
                    lemma_rendered_end(row@, start as int, end as int, start + width);
                }
                line
            },
            None => {
                if self.document.len() == 0 && terminal_row == self.size.height / 3 {
                    self.draw_welcome_message()
                } else {
                    String::from_str("~")
                }
            },
        }
    }

    fn draw_rows(&self, frame: &mut Vec<Command>)
        ensures
            command_views(final(frame)@) == command_views(old(frame)@) + self@.rows_frame(),
    {
        let height = self.size.height;
        let mut terminal_row: u16 = 0;
        assert(command_views(frame@) =~= command_views(old(frame)@) + self@.rows_frame_to(0));
        while terminal_row < height
            invariant
                terminal_row <= height,
                height == self@.size.height,
                command_views(frame@) == command_views(old(frame)@) + self@.rows_frame_to(
                    terminal_row as nat,
                ),
            decreases height - terminal_row,
        {
            emit(frame, Command::ClearCurrentLine);
            print_line(frame, self.draw_row(terminal_row));
            terminal_row += 1;
            assert(command_views(frame@) =~= command_views(old(frame)@) + self@.rows_frame_to(
                terminal_row as nat,
            ));
        }
    }

    /// The commands that draw the editor at time `now`, in the order in
    /// which the terminal is to carry them out.
    pub fn refresh_screen(&self, now: u64) -> (frame: Vec<Command>)
        ensures
            command_views(frame@) == self@.frame(now),
    {
        let mut frame: Vec<Command> = Vec::new();
        assert(command_views(frame@) =~= Seq::empty());
        emit(&mut frame, Command::HideCursor);
        emit(&mut frame, Command::ClearScreen);
        emit(&mut frame, Command::Goto(Position { x: 0, y: 0 }));
        if self.should_quit {
            emit(&mut frame, Command::ClearScreen);
            print_line(&mut frame, String::from_str("Goodbye."));
        } else {
            self.draw_rows(&mut frame);
            let bg = Rgb { red: STATUS_BAR_BG, green: STATUS_BAR_BG, blue: STATUS_BAR_BG };
            let fg = Rgb { red: STATUS_BAR_FG, green: STATUS_BAR_FG, blue: STATUS_BAR_FG };
            emit(&mut frame, Command::SetBgColor(bg));
            emit(&mut frame, Command::SetFgColor(fg));
            print_line(&mut frame, self.draw_status_bar());
            emit(&mut frame, Command::ResetBgColor);
            emit(&mut frame, Command::ResetFgColor);
            emit(&mut frame, Command::ClearCurrentLine);
            match self.draw_message_bar(now) {
                Some(text) => {
                    emit(&mut frame, Command::Print(text));
                },
                None => {},
            }
            emit(
                &mut frame,
                Command::Goto(
                    Position {
                        x: self.cursor_position.x.saturating_sub(self.offset.x),
                        y: self.cursor_position.y.saturating_sub(self.offset.y),
                    },
                ),
            );
        }
        emit(&mut frame, Command::ShowCursor);
        emit(&mut frame, Command::Flush);
        assert(command_views(frame@) =~= self@.frame(now));
        frame
    }
}

} // verus!
