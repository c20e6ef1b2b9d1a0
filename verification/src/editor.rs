//! The editor: a document, a cursor in it, the part of it that is on
//! screen, and a status message. Key presses come in one at a time; each
//! changes the state, and the state says what to draw.

pub use crate::document::Position;
use crate::document::{are_lines, lines_of, Document, DocumentView};
use crate::gui::{Key, Size};
use crate::text::{is_control, is_control_char};
use vstd::prelude::*;
use vstd::string::*;

pub mod draw;

verus! {

/// A line of text for the message bar, and when it was set.
pub struct StatusMessage {
    pub text: String,
    /// In milliseconds, on the clock that the editor's caller reads.
    pub time: u64,
}

impl StatusMessage {
    /// The message `text`, set at time `now`.
    pub fn from(text: String, now: u64) -> (message: StatusMessage)
        ensures
            message.text@ == text@,
            message.time == now,
    {
        StatusMessage { text, time: now }
    }
}

/// A file to be written: its name and all of its bytes.
pub struct SaveRequest {
    pub path: String,
    pub bytes: Vec<u8>,
}

/// A file to be written, as plain values.
pub struct SaveRequestView {
    pub path: Seq<char>,
    pub bytes: Seq<u8>,
}

impl View for SaveRequest {
    type V = SaveRequestView;

    open spec fn view(&self) -> SaveRequestView {
        SaveRequestView { path: self.path@, bytes: self.bytes@ }
    }
}

/// The state of one editing session.
pub struct Editor {
    should_quit: bool,
    size: Size,
    cursor_position: Position,
    document: Document,
    offset: Position,
    status_message: StatusMessage,
    /// Whether the prompt for a file name is open, and what was typed at it.
    prompting: bool,
    typed: String,
}

/// The editor's state as plain values.
pub struct EditorView {
    pub should_quit: bool,
    /// The terminal's text area.
    pub size: Size,
    /// Where the cursor is in the document.
    pub cursor: Position,
    pub document: DocumentView,
    /// The place in the document shown in the top left cell.
    pub offset: Position,
    /// The status message and the time it was set, in milliseconds.
    pub status: Seq<char>,
    pub status_time: u64,
    /// What was typed so far at the prompt for a file name, while that
    /// prompt is open.
    pub prompt: Option<Seq<char>>,
}

/// Where one axis of the view starts after scrolling: at the cursor if the
/// cursor was before the view, just far enough for the cursor to be the last
/// cell if it was past it, and where it was otherwise.
pub open spec fn scroll_offset(cursor: int, offset: int, extent: int) -> int {
    if cursor < offset {
        cursor
    } else if cursor >= offset + extent {
        if cursor - extent + 1 > usize::MAX {
            usize::MAX as int
        } else {
            cursor - extent + 1
        }
    } else {
        offset
    }
}

impl EditorView {
    /// The cursor is on a row of the document, at most at its end, or at the
    /// start of the place just past the last row.
    pub open spec fn cursor_valid(self) -> bool {
        &&& self.cursor.y <= self.document.rows.len()
        &&& self.cursor.x <= self.document.row_width(self.cursor.y as int)
    }

    /// The cursor is on a row or just past the last one, and past the last
    /// row it is at the start.
    pub open spec fn cursor_on_rows(self) -> bool {
        &&& self.cursor.y <= self.document.rows.len()
        &&& self.cursor.y == self.document.rows.len() ==> self.cursor.x == 0
    }

    /// The cursor is in the part of the document that is on screen. Nothing
    /// is asked of an axis along which the screen has no cells.
    pub open spec fn cursor_visible(self) -> bool {
        &&& self.size.height > 0 ==> self.offset.y <= self.cursor.y < self.offset.y
            + self.size.height
        &&& self.size.width > 0 ==> self.offset.x <= self.cursor.x < self.offset.x
            + self.size.width
    }

    /// How many rows a page key moves the cursor: one less than the height
    /// of the screen, and none on a screen without rows.
    pub open spec fn page(self) -> int {
        if self.size.height > 0 {
            self.size.height - 1
        } else {
            0
        }
    }

    /// Where the cursor goes on a motion key, before it is held to the
    /// document.
    pub open spec fn target(self, key: Key) -> (int, int) {
        let x = self.cursor.x as int;
        let y = self.cursor.y as int;
        let height = self.document.rows.len() as int;
        let width = self.document.row_width(y) as int;
        match key {
            Key::Up => (x, if y > 0 { y - 1 } else { 0 }),
            Key::Down => (x, if y < height { y + 1 } else { y }),
            Key::Left => if x == 0 && y > 0 {
                (self.document.row_width(y - 1) as int, y - 1)
            } else {
                (if x > 0 { x - 1 } else { 0 }, y)
            },
            Key::Right => if x == width {
                (0, y + 1)
            } else {
                (x + 1, y)
            },
            Key::PageUp => (x, if y > self.page() { y - self.page() } else { 0 }),
            Key::PageDown => (x, y + self.page()),
            Key::Home => (0, y),
            Key::End => (width, y),
            _ => (x, y),
        }
    }

    /// Where the cursor is after a motion key: its target, brought back to
    /// the end of the target row if it is past it, and to the place just
    /// past the last row if it is below it.
    pub open spec fn moved(self, key: Key) -> Position {
        let (x, y) = self.target(key);
        let width = self.document.row_width(y) as int;
        let height = self.document.rows.len() as int;
        Position {
            x: (if x > width { width } else { x }) as usize,
            y: (if y > height { height } else { y }) as usize,
        }
    }

    /// The state after a motion key.
    pub open spec fn move_cursor(self, key: Key) -> EditorView {
        EditorView { cursor: self.moved(key), ..self }
    }

    /// The state with `text` as its status message, set at `now`.
    pub open spec fn with_status(self, text: Seq<char>, now: u64) -> EditorView {
        EditorView { status: text, status_time: now, ..self }
    }

    /// The state after `c` is typed into the document: the character goes in
    /// at the cursor, and the cursor moves right.
    pub open spec fn type_char(self, c: char) -> EditorView {
        (EditorView { document: self.document.insert(self.cursor, c), ..self }).move_cursor(
            Key::Right,
        )
    }

    /// The state after a delete at the cursor.
    pub open spec fn delete(self) -> EditorView {
        EditorView { document: self.document.delete(self.cursor), ..self }
    }

    /// The state after Backspace: the cursor moves left and what it then
    /// stands on is deleted. At the start of the document nothing happens.
    pub open spec fn backspace(self) -> EditorView {
        if self.cursor.x > 0 || self.cursor.y > 0 {
            self.move_cursor(Key::Left).delete()
        } else {
            self
        }
    }

    /// The file to write when a save starts now, if the document has a file
    /// name.
    pub open spec fn save_request(self) -> Option<SaveRequestView> {
        match self.document.filename {
            Some(path) => Some(SaveRequestView { path, bytes: self.document.file_bytes() }),
            None => None,
        }
    }

    /// The state after a save is asked for: a document without a file name
    /// opens the prompt for one; a document with a file name is written as
    /// it is.
    pub open spec fn save(self, now: u64) -> EditorView {
        if self.document.filename.is_none() {
            (EditorView { prompt: Some(Seq::empty()), ..self }).with_status(save_prompt(), now)
        } else {
            self
        }
    }

    /// The state with `typed` at the open prompt.
    pub open spec fn retype(self, typed: Seq<char>, now: u64) -> EditorView {
        (EditorView { prompt: Some(typed), ..self }).with_status(save_prompt() + typed, now)
    }

    /// The state after the prompt is closed with `name`: the empty name
    /// gives up the save; any other becomes the document's file name.
    pub open spec fn commit(self, name: Seq<char>, now: u64) -> EditorView {
        if name.len() == 0 {
            (EditorView { prompt: None, ..self }).with_status(save_aborted_text(), now)
        } else {
            (EditorView {
                prompt: None,
                document: DocumentView { filename: Some(name), ..self.document },
                ..self
            }).with_status(Seq::empty(), now)
        }
    }

    /// The state after a key at the open prompt: Backspace takes the last
    /// character back, Enter closes the prompt with what was typed, Esc
    /// closes it with nothing, and any other character that is no control
    /// character is added to what was typed.
    pub open spec fn prompt(self, key: Key, now: u64) -> EditorView {
        let typed = self.prompt.unwrap();
        match key {
            Key::Backspace => self.retype(
                if typed.len() > 0 {
                    typed.drop_last()
                } else {
                    typed
                },
                now,
            ),
            Key::Char(c) => if c == '\n' {
                self.commit(typed, now)
            } else if !is_control_char(c) {
                self.retype(typed.push(c), now)
            } else {
                self.retype(typed, now)
            },
            Key::Esc => self.commit(Seq::empty(), now),
            _ => self.retype(typed, now),
        }
    }

    /// Whether `key` closes the open prompt with a file name: it is Enter,
    /// and something was typed.
    pub open spec fn names_file(self, key: Key) -> bool {
        self.prompt.is_some() && key == Key::Char('\n') && self.prompt.unwrap().len() > 0
    }

    /// Whether a character typed outside the prompt goes into the document:
    /// Enter does, and so does every character that is no control
    /// character.
    pub open spec fn accepts(c: char) -> bool {
        c == '\n' || !is_control_char(c)
    }

    /// The state after a key outside the prompt, before the view follows
    /// the cursor.
    pub open spec fn dispatch(self, key: Key, now: u64) -> EditorView {
        match key {
            Key::Ctrl(c) => if c == 'q' {
                EditorView { should_quit: true, ..self }
            } else if c == 's' {
                self.save(now)
            } else {
                self
            },
            Key::Char(c) => if Self::accepts(c) {
                self.type_char(c)
            } else {
                self
            },
            Key::Delete => self.delete(),
            Key::Backspace => self.backspace(),
            Key::Up | Key::Down | Key::Left | Key::Right | Key::PageUp | Key::PageDown | Key::Home | Key::End => self.move_cursor(
                key,
            ),
            _ => self,
        }
    }

    /// The state after a key press.
    pub open spec fn press(self, key: Key, now: u64) -> EditorView {
        if self.prompt.is_some() {
            self.prompt(key, now).scroll()
        } else {
            self.dispatch(key, now).scroll()
        }
    }

    /// The file to write after a key press, if the key starts a save that
    /// has a file name: Ctrl-s on a named document, or Enter at the prompt
    /// after a name was typed.
    pub open spec fn press_request(self, key: Key, now: u64) -> Option<SaveRequestView> {
        if self.prompt.is_some() {
            if self.names_file(key) {
                self.prompt(key, now).save_request()
            } else {
                None
            }
        } else if key == Key::Ctrl('s') {
            self.save_request()
        } else {
            None
        }
    }

    /// The state after the file was written, or could not be.
    pub open spec fn saved(self, ok: bool, now: u64) -> EditorView {
        if ok {
            (EditorView {
                document: DocumentView {
                    dirty: self.document.dirty && self.document.filename.is_none(),
                    ..self.document
                },
                ..self
            }).with_status(saved_text(), now)
        } else {
            self.with_status(save_error_text(), now)
        }
    }

    /// Whether `key` deletes from the document: it is Delete or Backspace,
    /// and the prompt is closed.
    pub open spec fn deletes(self, key: Key) -> bool {
        self.prompt.is_none() && (key == Key::Delete || key == Key::Backspace)
    }

    /// Whether `key` ends with a motion of the cursor: the prompt is closed,
    /// and it is a motion key or a character that is typed.
    pub open spec fn moves(self, key: Key) -> bool {
        self.prompt.is_none() && match key {
            Key::Up | Key::Down | Key::Left | Key::Right | Key::PageUp | Key::PageDown | Key::Home | Key::End => true,
            Key::Char(c) => Self::accepts(c),
            _ => false,
        }
    }

    /// The state after the view has followed the cursor.
    pub open spec fn scroll(self) -> EditorView {
        EditorView {
            offset: Position {
                x: scroll_offset(
                    self.cursor.x as int,
                    self.offset.x as int,
                    self.size.width as int,
                ) as usize,
                y: scroll_offset(
                    self.cursor.y as int,
                    self.offset.y as int,
                    self.size.height as int,
                ) as usize,
            },
            ..self
        }
    }
}

/// What the prompt for a file name says before what was typed.
pub open spec fn save_prompt() -> Seq<char> {
    "Save as: "@
}

/// The message after a save was given up at the prompt.
pub open spec fn save_aborted_text() -> Seq<char> {
    "Save aborted"@
}

/// The message after the file was written.
pub open spec fn saved_text() -> Seq<char> {
    "File saved successfully"@
}

/// The message after the file could not be written.
pub open spec fn save_error_text() -> Seq<char> {
    "Error saving file"@
}

/// The message a new editor shows when it was started without a file.
pub open spec fn help_text() -> Seq<char> {
    "HELP: Ctrl-s = save | Ctrl-q = quit"@
}

/// The message a new editor shows when the file `path` could not be read.
pub open spec fn open_error_text(path: Seq<char>) -> Seq<char> {
    "Error opening file: "@ + path
}

impl View for Editor {
    type V = EditorView;

    closed spec fn view(&self) -> EditorView {
        EditorView {
            should_quit: self.should_quit,
            size: self.size,
            cursor: self.cursor_position,
            document: self.document@,
            offset: self.offset,
            status: self.status_message.text@,
            status_time: self.status_message.time,
            prompt: if self.prompting {
                Some(self.typed@)
            } else {
                None
            },
        }
    }
}

impl Editor {
    /// A new editor for a terminal with text area `size`, at time `now`.
    /// `path` is the file named on the command line, if one was, and
    /// `content` what was read from it, if it could be read. Without a path
    /// the editor starts empty and shows its help line. With a path that
    /// could not be read it starts empty and says so.
    pub fn default(size: Size, path: Option<&str>, content: Option<&str>, now: u64) -> (editor:
        Editor)
        ensures
            editor@.should_quit == false,
            editor@.size == size,
            editor@.cursor == (Position { x: 0, y: 0 }),
            editor@.offset == (Position { x: 0, y: 0 }),
            editor@.prompt.is_none(),
            editor@.status_time == now,
            editor@.document == (match (path, content) {
                (Some(path), Some(content)) => DocumentView {
                    rows: lines_of(content@),
                    filename: Some(path@),
                    dirty: false,
                },
                _ => DocumentView { rows: Seq::empty(), filename: None, dirty: false },
            }),
            editor@.status == (match (path, content) {
                (Some(path), None) => open_error_text(path@),
                _ => help_text(),
            }),
            editor@.cursor_valid(),
            are_lines(editor@.document.rows),
    {
        let mut initial_status = String::from_str("HELP: Ctrl-s = save | Ctrl-q = quit");
        let document = match path {
            Some(path) => match content {
                Some(content) => Document::open(path, content),
                None => {
                    initial_status = String::from_str("Error opening file: ");
                    initial_status.append(path);
                    Document::default()
                },
            },
            None => Document::default(),
        };
        Editor {
            should_quit: false,
            size,
            cursor_position: Position { x: 0, y: 0 },
            document,
            offset: Position { x: 0, y: 0 },
            status_message: StatusMessage::from(initial_status, now),
            prompting: false,
            typed: String::new(),
        }
    }

    /// Whether the user has asked to leave.
    pub fn should_quit(&self) -> (quit: bool)
        ensures
            quit == self@.should_quit,
    {
        self.should_quit
    }

    /// Where the cursor is in the document.
    pub fn cursor_position(&self) -> (cursor: Position)
        ensures
            cursor == self@.cursor,
    {
        self.cursor_position
    }

    /// The place in the document shown in the top left cell.
    pub fn offset(&self) -> (offset: Position)
        ensures
            offset == self@.offset,
    {
        self.offset
    }

    /// The document being edited.
    pub fn document(&self) -> (document: &Document)
        ensures
            document@ == self@.document,
    {
        &self.document
    }

    /// The text of the status message.
    pub fn status_text(&self) -> (text: &str)
        ensures
            text@ == self@.status,
    {
        self.status_message.text.as_str()
    }

    /// Whether the prompt for a file name is open.
    pub fn is_prompting(&self) -> (open: bool)
        ensures
            open == self@.prompt.is_some(),
    {
        self.prompting
    }

    /// Number of clusters in row `index`, and 0 where there is no such row.
    pub fn row_width(&self, index: usize) -> (width: usize)
        ensures
            width == self@.document.row_width(index as int),
    {
        match self.document.row(index) {
            Some(row) => row.len(),
            None => 0,
        }
    }

    /// Moves the view so that the cursor is on screen: along each axis the
    /// view starts at the cursor if the cursor was before it, ends with the
    /// cursor if the cursor was past it, and stays otherwise.
    pub fn scroll(&mut self)
        ensures
            final(self)@ == old(self)@.scroll(),
            final(self)@.cursor_visible(),
    {
        let Position { x, y } = self.cursor_position;
        let width = self.size.width as usize;
        let height = self.size.height as usize;
        if y < self.offset.y {
            self.offset.y = y;
        } else if y - self.offset.y >= height {
            self.offset.y = y.saturating_sub(height).saturating_add(1);
        }
        if x < self.offset.x {
            self.offset.x = x;
        } else if x - self.offset.x >= width {
            self.offset.x = x.saturating_sub(width).saturating_add(1);
        }
    }

    /// Moves the cursor as `key` says, then holds it to the document: Up and
    /// Down by a row, PageUp and PageDown by a screen less one row, Left and
    /// Right by a cluster and over the ends of rows, Home and End to the
    /// ends of the row. Other keys move nothing.
    pub fn move_cursor(&mut self, key: Key)
        ensures
            final(self)@ == old(self)@.move_cursor(key),
            final(self)@.cursor_valid(),
    {
        let terminal_height = self.size.height as usize;
        let page = terminal_height.saturating_sub(1);
        let Position { mut y, mut x } = self.cursor_position;
        let height = self.document.len();
        let width = self.row_width(y);
        match key {
            Key::Up => {
                y = y.saturating_sub(1);
            },
            Key::Down => {
                if y < height {
                    y = y.saturating_add(1);
                }
            },
            Key::Left => {
                if x == 0 && y > 0 {
                    y = y.saturating_sub(1);
                    x = self.row_width(y);
                } else {
                    x = x.saturating_sub(1);
                }
            },
            Key::Right => {
                if x == width {
                    x = 0;
                    y = y.saturating_add(1);
                } else {
                    x = x.saturating_add(1);
                }
            },
            Key::PageUp => {
                y = y.saturating_sub(page);
            },
            Key::PageDown => {
                y = y.saturating_add(page);
            },
            Key::Home => {
                x = 0;
            },
            Key::End => {
                x = width;
            },
            _ => (),
        }
        let width = self.row_width(y);
        if x > width {
            x = width;
        }
        if y > height {
            y = height;
        }
        self.cursor_position = Position { x, y };
    }

    fn set_status(&mut self, text: String, now: u64)
        ensures
            final(self)@ == old(self)@.with_status(text@, now),
    {
        self.status_message = StatusMessage::from(text, now);
    }

    fn save_request(&self) -> (request: Option<SaveRequest>)
        ensures
            request.is_some() == self@.save_request().is_some(),
            request.is_some() ==> request.unwrap()@ == self@.save_request().unwrap(),
    {
        match self.document.file_name() {
            Some(name) => Some(SaveRequest { path: name.clone(), bytes: self.document.as_bytes() }),
            None => None,
        }
    }

    /// Starts a save. A document without a file name opens the prompt for
    /// one and nothing is written yet. A document with a file name is to be
    /// written now: the file and its bytes are returned.
    fn save(&mut self, now: u64) -> (request: Option<SaveRequest>)
        requires
            old(self)@.prompt.is_none(),
        ensures
            final(self)@ == old(self)@.save(now),
            request.is_some() == old(self)@.save_request().is_some(),
            request.is_some() ==> request.unwrap()@ == old(self)@.save_request().unwrap(),
    {
        if self.document.file_name().is_none() {
            self.prompting = true;
            self.typed = String::new();
            self.set_status(String::from_str("Save as: "), now);
            None
        } else {
            self.save_request()
        }
    }

    fn retype(&mut self, now: u64)
        requires
            old(self)@.prompt.is_some(),
        ensures
            final(self)@ == old(self)@.retype(old(self)@.prompt.unwrap(), now),
    {
        let mut text = String::from_str("Save as: ");
        text.append(self.typed.as_str());
        self.set_status(text, now);
    }

    fn commit(&mut self, now: u64) -> (request: Option<SaveRequest>)
        requires
            old(self)@.prompt.is_some(),
        ensures
            final(self)@ == old(self)@.commit(old(self)@.prompt.unwrap(), now),
            request.is_some() == (old(self)@.prompt.unwrap().len() > 0),
            request.is_some() ==> request.unwrap()@ == final(self)@.save_request().unwrap(),
    {
        self.prompting = false;
        if self.typed.as_str().is_empty() {
            self.set_status(String::from_str("Save aborted"), now);
            None
        } else {
            self.document.set_file_name(self.typed.clone());
            self.set_status(String::new(), now);
            self.save_request()
        }
    }

    /// Handles one key at the open prompt for a file name. When Enter closes
    /// the prompt with a name, that name becomes the document's file name
    /// and the file to write is returned.
    fn prompt(&mut self, key: Key, now: u64) -> (request: Option<SaveRequest>)
        requires
            old(self)@.prompt.is_some(),
        ensures
            final(self)@ == old(self)@.prompt(key, now),
            request.is_some() == old(self)@.names_file(key),
            request.is_some() ==> request.unwrap()@ == final(self)@.save_request().unwrap(),
    {
        match key {
            Key::Backspace => {
                let _ = self.typed.pop();
                self.retype(now);
                None
            },
            Key::Char(c) => {
                if c == '\n' {
                    self.commit(now)
                } else {
                    if !is_control(c) {
                        self.typed.push(c);
                    }
                    self.retype(now);
                    None
                }
            },
            Key::Esc => {
                self.typed = String::new();
                self.commit(now)
            },
            _ => {
                self.retype(now);
                None
            },
        }
    }

    /// Tells the editor how the write it asked for ended. After a write that
    /// went well the document has no unsaved changes.
    pub fn saved(&mut self, ok: bool, now: u64)
        ensures
            final(self)@ == old(self)@.saved(ok, now),
    {
        if ok {
            self.document.save();
            self.set_status(String::from_str("File saved successfully"), now);
        } else {
            self.set_status(String::from_str("Error saving file"), now);
        }
    }

    /// Handles one key press, then lets the view follow the cursor. While
    /// the prompt for a file name is open every key goes to it. Otherwise
    /// Ctrl-q asks to leave, Ctrl-s starts a save, Enter and every character
    /// that is no control character are typed into the document, Delete and
    /// Backspace delete, the arrow and page keys, Home and End move the
    /// cursor, and every other key is ignored. When the key starts a save
    /// that has a file name, the file to write is returned; the caller
    /// writes it and reports with `saved`.
    pub fn process_keypress(&mut self, key: Key, now: u64) -> (request: Option<SaveRequest>)
        ensures
            final(self)@ == old(self)@.press(key, now),
            request.is_some() == old(self)@.press_request(key, now).is_some(),
            request.is_some() ==> request.unwrap()@ == old(self)@.press_request(key, now).unwrap(),
            final(self)@.cursor_visible(),
            old(self)@.cursor_on_rows() ==> final(self)@.cursor_on_rows(),
            old(self)@.cursor_valid() && !old(self)@.deletes(key) ==> final(self)@.cursor_valid(),
            old(self)@.moves(key) ==> final(self)@.cursor_valid(),
            are_lines(old(self)@.document.rows) ==> are_lines(final(self)@.document.rows),
    {
        let request = if self.prompting {
            self.prompt(key, now)
        } else {
            match key {
                Key::Ctrl(c) => {
                    if c == 'q' {
                        self.should_quit = true;
                        None
                    } else if c == 's' {
                        self.save(now)
                    } else {
                        None
                    }
                },
                Key::Char(c) => {
                    if c == '\n' || !is_control(c) {
                        self.document.insert(&self.cursor_position, c);
                        self.move_cursor(Key::Right);
                    }
                    None
                },
                Key::Delete => {
                    self.document.delete(&self.cursor_position);
                    None
                },
                Key::Backspace => {
                    if self.cursor_position.x > 0 || self.cursor_position.y > 0 {
                        self.move_cursor(Key::Left);
                        self.document.delete(&self.cursor_position);
                    }
                    None
                },
                Key::Up | Key::Down | Key::Left | Key::Right | Key::PageUp | Key::PageDown | Key::Home | Key::End => {
                    self.move_cursor(key);
                    None
                },
                _ => None,
            }
        };
        self.scroll();
        request
    }
}

} // verus!
