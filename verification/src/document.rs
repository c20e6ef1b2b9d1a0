//! The text buffer: an ordered sequence of rows, the name of the file it
//! belongs to, and whether it has unsaved changes.

use crate::grapheme::{grapheme_boundary, grapheme_clusters, grapheme_count};
use crate::row::{deleted, head, inserted, tail, Row};
use vstd::prelude::*;
use vstd::string::*;

verus! {

/// A place in a document: cluster `x` of row `y`. `y` may be the number of
/// rows, the place just past the last row.
#[derive(Clone, Copy, PartialEq, Eq, Structural, Debug, Default)]
pub struct Position {
    pub x: usize,
    pub y: usize,
}

/// The text being edited: its rows, the name of its file if it has one, and
/// whether it was changed since it was opened or saved.
pub struct Document {
    rows: Vec<Row>,
    pub filename: Option<String>,
    dirty: bool,
}

/// What a document holds, as plain values.
pub struct DocumentView {
    /// The text of each row, in order.
    pub rows: Seq<Seq<char>>,
    pub filename: Option<Seq<char>>,
    pub dirty: bool,
}

impl DocumentView {
    /// Number of clusters in row `y`, and 0 where there is no such row.
    pub open spec fn row_width(self, y: int) -> nat {
        if 0 <= y < self.rows.len() {
            grapheme_count(self.rows[y])
        } else {
            0
        }
    }

    /// The bytes of the document's file: each row in UTF-8, followed by a
    /// line feed.
    pub open spec fn file_bytes(self) -> Seq<u8> {
        vstd::utf8::encode_utf8(file_text(self.rows))
    }

    /// The rows after a line break at `at`: past the last row an empty row is
    /// added; otherwise row `at.y` is cut before cluster `at.x` and what
    /// follows the cut becomes the next row.
    pub open spec fn rows_after_newline(self, at: Position) -> Seq<Seq<char>> {
        if at.y >= self.rows.len() {
            self.rows.push(Seq::empty())
        } else {
            let line = self.rows[at.y as int];
            self.rows.update(at.y as int, head(line, at.x as int)).insert(
                at.y + 1,
                tail(line, at.x as int),
            )
        }
    }

    /// The rows after `c` is typed at `at`.
    pub open spec fn rows_after_insert(self, at: Position, c: char) -> Seq<Seq<char>> {
        if c == '\n' {
            self.rows_after_newline(at)
        } else if at.y == self.rows.len() {
            self.rows.push(seq![c])
        } else if at.y < self.rows.len() {
            self.rows.update(at.y as int, inserted(self.rows[at.y as int], at.x as int, c))
        } else {
            self.rows
        }
    }

    /// The document after `c` is typed at `at`.
    pub open spec fn insert(self, at: Position, c: char) -> DocumentView {
        DocumentView { rows: self.rows_after_insert(at, c), filename: self.filename, dirty: true }
    }

    /// Whether `at` is the end of a row that has a row after it.
    pub open spec fn joins(self, at: Position) -> bool {
        at.y + 1 < self.rows.len() && at.x == grapheme_count(self.rows[at.y as int])
    }

    /// Whether a delete at `at` removes anything: a cluster of row `at.y`, or
    /// the break between that row and the next.
    pub open spec fn delete_applies(self, at: Position) -> bool {
        at.y < self.rows.len() && (self.joins(at) || at.x < grapheme_count(
            self.rows[at.y as int],
        ))
    }

    /// The rows after a delete at `at`.
    pub open spec fn rows_after_delete(self, at: Position) -> Seq<Seq<char>> {
        if at.y >= self.rows.len() {
            self.rows
        } else if self.joins(at) {
            self.rows.update(at.y as int, self.rows[at.y as int] + self.rows[at.y + 1]).remove(
                at.y + 1,
            )
        } else {
            self.rows.update(at.y as int, deleted(self.rows[at.y as int], at.x as int))
        }
    }

    /// The document after a delete at `at`. A delete that removes nothing
    /// leaves the document as it was, unsaved changes included.
    pub open spec fn delete(self, at: Position) -> DocumentView {
        DocumentView {
            rows: self.rows_after_delete(at),
            filename: self.filename,
            dirty: self.dirty || self.delete_applies(at),
        }
    }
}

/// A delete that has nothing to remove leaves the document as it was: one
/// past the last row, one past the end of a row, and one at the end of the
/// last row.
pub proof fn lemma_delete_without_effect(doc: DocumentView, at: Position)
    requires
        !doc.delete_applies(at),
    ensures
        doc.delete(at) == doc,
{
    if at.y < doc.rows.len() {
        assert(doc.rows.update(at.y as int, doc.rows[at.y as int]) =~= doc.rows);
    }
}

/// A line break in row `at.y` adds one row and loses no text: the row and
/// the one after it, joined, spell the row that was broken, and every other
/// row stays as it was.
pub proof fn lemma_newline_keeps_text(doc: DocumentView, at: Position)
    requires
        at.y < doc.rows.len(),
    ensures
        doc.insert(at, '\n').rows.len() == doc.rows.len() + 1,
        doc.insert(at, '\n').rows[at.y as int] + doc.insert(at, '\n').rows[at.y + 1]
            == doc.rows[at.y as int],
        forall|i: int| 0 <= i < at.y ==> doc.insert(at, '\n').rows[i] == doc.rows[i],
        forall|i: int|
            at.y < i < doc.rows.len() ==> #[trigger] doc.insert(at, '\n').rows[i + 1]
                == doc.rows[i],
{
    let line = doc.rows[at.y as int];
    assert(head(line, at.x as int) + tail(line, at.x as int) =~= line);
}

/// Breaking row `at.y` and then deleting at the end of its first half gives
/// back the rows as they were.
pub proof fn lemma_delete_undoes_newline(doc: DocumentView, at: Position, end: Position)
    requires
        at.y < doc.rows.len(),
        end.y == at.y,
        end.x == grapheme_count(doc.insert(at, '\n').rows[at.y as int]),
    ensures
        doc.insert(at, '\n').delete(end).rows == doc.rows,
        doc.insert(at, '\n').delete_applies(end),
{
    let line = doc.rows[at.y as int];
    let broken = doc.insert(at, '\n');
    assert(head(line, at.x as int) + tail(line, at.x as int) =~= line);
    assert(broken.joins(end));
    assert(broken.delete(end).rows =~= doc.rows);
}

/// Where reading a text line by line stands after some of its characters:
/// the lines that a line feed has ended, the line being read, and whether
/// any character of that line was seen.
pub struct Scan {
    pub done: Seq<Seq<char>>,
    pub line: Seq<char>,
    pub begun: bool,
}

/// Reads `content` from left to right. A line feed ends the line being read,
/// a carriage return is dropped, and any other character joins the line.
pub open spec fn scan(content: Seq<char>) -> Scan
    decreases content.len(),
{
    if content.len() == 0 {
        Scan { done: Seq::empty(), line: Seq::empty(), begun: false }
    } else {
        let before = scan(content.drop_last());
        let c = content.last();
        if c == '\n' {
            Scan { done: before.done.push(before.line), line: Seq::empty(), begun: false }
        } else if c == '\r' {
            Scan { done: before.done, line: before.line, begun: true }
        } else {
            Scan { done: before.done, line: before.line.push(c), begun: true }
        }
    }
}

/// The lines of `content`: the text between line feeds, without carriage
/// returns. What follows the last line feed is a line too unless it is
/// empty, so the empty text has no lines.
pub open spec fn lines_of(content: Seq<char>) -> Seq<Seq<char>> {
    let end = scan(content);
    if end.begun {
        end.done.push(end.line)
    } else {
        end.done
    }
}

/// `text` without its carriage returns.
pub open spec fn without_returns(text: Seq<char>) -> Seq<char>
    decreases text.len(),
{
    if text.len() == 0 {
        Seq::empty()
    } else if text.last() == '\r' {
        without_returns(text.drop_last())
    } else {
        without_returns(text.drop_last()).push(text.last())
    }
}

/// Whether `text` holds no line feed.
pub open spec fn is_unbroken(text: Seq<char>) -> bool {
    forall|i: int| 0 <= i < text.len() ==> text[i] != '\n'
}

proof fn lemma_scan_unbroken(before: Seq<char>, text: Seq<char>)
    requires
        is_unbroken(text),
    ensures
        scan(before + text) == (Scan {
            done: scan(before).done,
            line: scan(before).line + without_returns(text),
            begun: scan(before).begun || text.len() > 0,
        }),
    decreases text.len(),
{
    if text.len() == 0 {
        assert(before + text =~= before);
        assert(scan(before).line + without_returns(text) =~= scan(before).line);
    } else {
        lemma_scan_unbroken(before, text.drop_last());
        assert((before + text).drop_last() =~= before + text.drop_last());
        assert((before + text).last() == text.last());
        if text.last() != '\r' {
            assert(scan(before).line + without_returns(text) =~= (scan(before).line
                + without_returns(text.drop_last())).push(text.last()));
        }
    }
}

proof fn lemma_scan_after_line_feed(before: Seq<char>, rest: Seq<char>)
    ensures
        scan(before.push('\n') + rest) == (Scan {
            done: scan(before.push('\n')).done + scan(rest).done,
            line: scan(rest).line,
            begun: scan(rest).begun,
        }),
    decreases rest.len(),
{
    let first = before.push('\n');
    if rest.len() == 0 {
        assert(first + rest =~= first);
        assert(first.drop_last() =~= before);
        assert(scan(first).done + scan(rest).done =~= scan(first).done);
    } else {
        lemma_scan_after_line_feed(before, rest.drop_last());
        assert((first + rest).drop_last() =~= first + rest.drop_last());
        assert((first + rest).last() == rest.last());
        let so_far = scan(rest.drop_last());
        if rest.last() == '\n' {
            assert((scan(first).done + so_far.done).push(so_far.line) =~= scan(first).done
                + so_far.done.push(so_far.line));
        }
    }
}

/// The first line of a text is what stands before its first line feed,
/// without carriage returns, and the other lines are the lines of what
/// stands after that line feed.
pub proof fn lemma_first_line(first: Seq<char>, rest: Seq<char>)
    requires
        is_unbroken(first),
    ensures
        lines_of(first.push('\n') + rest) == seq![without_returns(first)] + lines_of(rest),
{
    lemma_scan_after_line_feed(first, rest);
    lemma_scan_unbroken(Seq::empty(), first);
    assert(Seq::<char>::empty() + first =~= first);
    assert(first.push('\n').drop_last() =~= first);
    assert(Seq::<char>::empty() + without_returns(first) =~= without_returns(first));
    let one = seq![without_returns(first)];
    assert(scan(first.push('\n')).done =~= one);
    let end = scan(rest);
    if end.begun {
        assert((one + end.done).push(end.line) =~= one + end.done.push(end.line));
    }
}

/// A text without a line feed is one line, without its carriage returns,
/// and no line at all if it is empty.
pub proof fn lemma_last_line(last: Seq<char>)
    requires
        is_unbroken(last),
    ensures
        lines_of(last) == if last.len() == 0 {
            Seq::<Seq<char>>::empty()
        } else {
            seq![without_returns(last)]
        },
{
    lemma_scan_unbroken(Seq::empty(), last);
    assert(Seq::<char>::empty() + last =~= last);
    assert(Seq::<char>::empty() + without_returns(last) =~= without_returns(last));
    if last.len() > 0 {
        assert(Seq::<Seq<char>>::empty().push(without_returns(last)) =~= seq![
            without_returns(last),
        ]);
    }
}

/// What is written to the file: each row followed by a line feed.
pub open spec fn file_text(rows: Seq<Seq<char>>) -> Seq<char>
    decreases rows.len(),
{
    if rows.len() == 0 {
        Seq::empty()
    } else {
        file_text(rows.drop_last()) + rows.last() + seq!['\n']
    }
}

/// Whether `text` can be a row of a file: it holds neither a line feed nor a
/// carriage return.
pub open spec fn is_line(text: Seq<char>) -> bool {
    forall|i: int| 0 <= i < text.len() ==> text[i] != '\n' && text[i] != '\r'
}

/// Whether every row can be a row of a file.
pub open spec fn are_lines(rows: Seq<Seq<char>>) -> bool {
    forall|i: int| 0 <= i < rows.len() ==> is_line(#[trigger] rows[i])
}

/// Typing anything but a carriage return leaves every row free of line
/// feeds and carriage returns.
pub proof fn lemma_insert_keeps_lines(doc: DocumentView, at: Position, c: char)
    requires
        are_lines(doc.rows),
        c != '\r',
    ensures
        are_lines(doc.insert(at, c).rows),
{
    let after = doc.insert(at, c).rows;
    assert forall|i: int| 0 <= i < after.len() implies is_line(#[trigger] after[i]) by {
        if at.y < doc.rows.len() {
            let line = doc.rows[at.y as int];
            assert(is_line(line));
            if c == '\n' {
                if i < at.y {
                    assert(after[i] == doc.rows[i]);
                } else if i > at.y + 1 {
                    assert(after[i] == doc.rows[i - 1]);
                }
            } else if i != at.y {
                assert(after[i] == doc.rows[i]);
            }
        } else if i < doc.rows.len() {
            assert(after[i] == doc.rows[i]);
        }
    }
}

/// Deleting leaves every row free of line feeds and carriage returns.
pub proof fn lemma_delete_keeps_lines(doc: DocumentView, at: Position)
    requires
        are_lines(doc.rows),
    ensures
        are_lines(doc.delete(at).rows),
{
    let after = doc.delete(at).rows;
    assert forall|i: int| 0 <= i < after.len() implies is_line(#[trigger] after[i]) by {
        if at.y < doc.rows.len() {
            let line = doc.rows[at.y as int];
            assert(is_line(line));
            if doc.joins(at) {
                assert(is_line(doc.rows[at.y + 1]));
                if i < at.y {
                    assert(after[i] == doc.rows[i]);
                } else if i > at.y {
                    assert(after[i] == doc.rows[i + 1]);
                }
            } else if i != at.y {
                assert(after[i] == doc.rows[i]);
            }
        } else {
            assert(after[i] == doc.rows[i]);
        }
    }
}

proof fn lemma_scan_gives_lines(content: Seq<char>)
    ensures
        are_lines(scan(content).done),
        is_line(scan(content).line),
        are_lines(lines_of(content)),
    decreases content.len(),
{
    if content.len() > 0 {
        lemma_scan_gives_lines(content.drop_last());
    }
}

proof fn lemma_scan_line(before: Seq<char>, line: Seq<char>)
    requires
        is_line(line),
    ensures
        scan(before + line) == (Scan {
            done: scan(before).done,
            line: scan(before).line + line,
            begun: scan(before).begun || line.len() > 0,
        }),
    decreases line.len(),
{
    if line.len() == 0 {
        assert(before + line =~= before);
        assert(scan(before).line + line =~= scan(before).line);
    } else {
        lemma_scan_line(before, line.drop_last());
        assert((before + line).drop_last() =~= before + line.drop_last());
        assert(scan(before).line + line =~= (scan(before).line + line.drop_last()).push(
            line.last(),
        ));
    }
}

/// Reading back what was written for `rows` gives `rows` again, as long as
/// no row holds a line feed or a carriage return.
pub proof fn lemma_lines_of_file_text(rows: Seq<Seq<char>>)
    requires
        are_lines(rows),
    ensures
        scan(file_text(rows)) == (Scan { done: rows, line: Seq::empty(), begun: false }),
        lines_of(file_text(rows)) == rows,
    decreases rows.len(),
{
    if rows.len() == 0 {
        assert(rows =~= Seq::empty());
    } else {
        let before = file_text(rows.drop_last());
        lemma_lines_of_file_text(rows.drop_last());
        lemma_scan_line(before, rows.last());
        let whole = before + rows.last() + seq!['\n'];
        assert(file_text(rows) == whole);
        assert(whole.drop_last() =~= before + rows.last());
        assert(whole.last() == '\n');
        assert(Seq::<char>::empty() + rows.last() =~= rows.last());
        assert(rows.drop_last().push(rows.last()) =~= rows);
        assert(scan(whole).done == scan(whole.drop_last()).done.push(scan(whole.drop_last()).line));
    }
}

/// Saving a document and opening the file again gives the rows that were
/// saved: if the bytes of `content` are the bytes written for `doc`, whose
/// rows hold no line feed and no carriage return, then the lines of
/// `content` are the rows of `doc`.
pub proof fn lemma_open_after_save(doc: DocumentView, content: Seq<char>)
    requires
        are_lines(doc.rows),
        vstd::utf8::encode_utf8(content) == doc.file_bytes(),
    ensures
        lines_of(content) == doc.rows,
{
    vstd::utf8::encode_utf8_decode_utf8(content);
    vstd::utf8::encode_utf8_decode_utf8(file_text(doc.rows));
    lemma_lines_of_file_text(doc.rows);
}

/// The text of each row.
spec fn texts(rows: Seq<Row>) -> Seq<Seq<char>> {
    rows.map_values(|row: Row| row@)
}

spec fn name_view(name: Option<String>) -> Option<Seq<char>> {
    match name {
        Some(name) => Some(name@),
        None => None,
    }
}

impl View for Document {
    type V = DocumentView;

    closed spec fn view(&self) -> DocumentView {
        DocumentView {
            rows: texts(self.rows@),
            filename: name_view(self.filename),
            dirty: self.dirty,
        }
    }
}

impl Default for Document {
    /// An empty document without a file name and without unsaved changes.
    fn default() -> (doc: Document)
        ensures
            doc@ == (DocumentView { rows: Seq::empty(), filename: None, dirty: false }),
    {
        let doc = Document { rows: Vec::new(), filename: None, dirty: false };
        assert(texts(doc.rows@) =~= Seq::empty());
        doc
    }
}

impl Document {
    /// The document of a file that was read: one row for each line of
    /// `content`, named `filename`, without unsaved changes.
    pub fn open(filename: &str, content: &str) -> (doc: Document)
        ensures
            doc@ == (DocumentView {
                rows: lines_of(content@),
                filename: Some(filename@),
                dirty: false,
            }),
            are_lines(doc@.rows),
    {
        proof {
            lemma_scan_gives_lines(content@);
        }
        let mut rows: Vec<Row> = Vec::new();
        let mut line = String::new();
        let mut begun = false;
        assert(texts(rows@) =~= Seq::empty());
        for c in it: content.chars()
            invariant
                it.seq() == content@,
                scan(content@.take(it.index() as int)) == (Scan {
                    done: texts(rows@),
                    line: line@,
                    begun,
                }),
        {
            proof {
                let seen = content@.take(it.index() + 1);
                assert(seen.drop_last() =~= content@.take(it.index() as int));
                assert(seen.last() == c);
            }
            if c == '\n' {
                let ghost before = rows@;
                rows.push(Row::from(line.as_str()));
                assert(texts(rows@) =~= texts(before).push(line@));
                line = String::new();
                begun = false;
            } else {
                if c != '\r' {
                    line.push(c);
                }
                begun = true;
            }
        }
        assert(content@.take(content@.len() as int) =~= content@);
        if begun {
            let ghost before = rows@;
            rows.push(Row::from(line.as_str()));
            assert(texts(rows@) =~= texts(before).push(line@));
        }
        Document { rows, filename: Some(filename.to_owned()), dirty: false }
    }

    /// The bytes to write to the document's file: each row's bytes followed
    /// by a line feed, the last row's too.
    pub fn as_bytes(&self) -> (bytes: Vec<u8>)
        ensures
            bytes@ == self@.file_bytes(),
    {
        let mut text = String::new();
        let mut i: usize = 0;
        assert(texts(self.rows@).take(0) =~= Seq::<Seq<char>>::empty());
        while i < self.rows.len()
            invariant
                i <= self.rows.len(),
                text@ == file_text(texts(self.rows@).take(i as int)),
            decreases self.rows.len() - i,
        {
            proof {
                let next = texts(self.rows@).take(i + 1);
                assert(next.drop_last() =~= texts(self.rows@).take(i as int));
                assert(next.last() == self.rows[i as int]@);
            }
            text.append(self.rows[i].as_str());
            text.push('\n');
            i += 1;
        }
        assert(texts(self.rows@).take(i as int) =~= texts(self.rows@));
        text.as_str().as_bytes_vec()
    }

    /// Records that the document was written to its file: a document with a
    /// file name has no unsaved changes from then on. A document without a
    /// file name has no file, and stays as it is.
    pub fn save(&mut self)
        ensures
            final(self)@ == (DocumentView {
                dirty: old(self)@.dirty && old(self)@.filename.is_none(),
                ..old(self)@
            }),
            old(self)@.filename.is_some() ==> !final(self)@.dirty,
    {
        if self.filename.is_some() {
            self.dirty = false;
        }
    }

    /// The name of the document's file, if it has one.
    pub fn file_name(&self) -> (name: Option<&String>)
        ensures
            name.is_some() == self@.filename.is_some(),
            name.is_some() ==> name.unwrap()@ == self@.filename.unwrap(),
    {
        self.filename.as_ref()
    }

    /// Names the document's file.
    pub fn set_file_name(&mut self, name: String)
        ensures
            final(self)@ == (DocumentView { filename: Some(name@), ..old(self)@ }),
    {
        self.filename = Some(name);
    }

    /// Whether the document has changes that were not saved.
    pub fn is_dirty(&self) -> (dirty: bool)
        ensures
            dirty == self@.dirty,
    {
        self.dirty
    }

    /// Number of rows.
    pub fn len(&self) -> (n: usize)
        ensures
            n == self@.rows.len(),
    {
        self.rows.len()
    }

    /// Whether the document has no rows.
    pub fn is_empty(&self) -> (empty: bool)
        ensures
            empty == (self@.rows.len() == 0),
    {
        self.rows.len() == 0
    }

    /// Row number `index`, if there is one.
    pub fn row(&self, index: usize) -> (row: Option<&Row>)
        ensures
            index < self@.rows.len() ==> row.is_some() && row.unwrap()@ == self@.rows[index as int],
            index >= self@.rows.len() ==> row.is_none(),
    {
        if index < self.rows.len() {
            Some(&self.rows[index])
        } else {
            None
        }
    }

    /// Types `c` at `at` and marks the document as changed. A line feed
    /// breaks the line; any other character goes into row `at.y` before
    /// cluster `at.x`, or into a new last row when `at.y` is the number of
    /// rows. Past that nothing is inserted.
    pub fn insert(&mut self, at: &Position, c: char)
        ensures
            final(self)@ == old(self)@.insert(*at, c),
            final(self)@.dirty,
            are_lines(old(self)@.rows) && c != '\r' ==> are_lines(final(self)@.rows),
            c == '\n' && at.y < old(self)@.rows.len() ==> {
                &&& final(self)@.rows.len() == old(self)@.rows.len() + 1
                &&& final(self)@.rows[at.y as int] + final(self)@.rows[at.y + 1] == old(self)@.rows[at.y as int]
            },
    {
        proof {
            if are_lines(old(self)@.rows) && c != '\r' {
                lemma_insert_keeps_lines(old(self)@, *at, c);
            }
        }
        self.dirty = true;
        if c == '\n' {
            self.insert_newline(at);
            return ;
        }
        if at.y == self.rows.len() {
            let mut row = Row::default();
            row.insert(0, c);
            proof {
                let none = Seq::<char>::empty();
                assert(grapheme_clusters(none).take(0) =~= Seq::<Seq<char>>::empty());
                assert(grapheme_boundary(none, 0) == 0);
                assert(row@ =~= seq![c]);
            }
            self.rows.push(row);
            assert(texts(self.rows@) =~= old(self)@.rows.push(seq![c]));
        } else if at.y < self.rows.len() {
            self.rows[at.y].insert(at.x, c);
            assert(texts(self.rows@) =~= old(self)@.rows.update(
                at.y as int,
                inserted(old(self)@.rows[at.y as int], at.x as int, c),
            ));
        }
    }

    fn insert_newline(&mut self, at: &Position)
        ensures
            final(self)@.rows == old(self)@.rows_after_newline(*at),
            final(self)@.filename == old(self)@.filename,
            final(self)@.dirty == old(self)@.dirty,
            at.y < old(self)@.rows.len() ==> {
                &&& final(self)@.rows.len() == old(self)@.rows.len() + 1
                &&& final(self)@.rows[at.y as int] + final(self)@.rows[at.y + 1] == old(self)@.rows[at.y as int]
            },
    {
        if at.y >= self.rows.len() {
            self.rows.push(Row::default());
            assert(texts(self.rows@) =~= old(self)@.rows.push(Seq::empty()));
        } else {
            let new_row = self.rows[at.y].split(at.x);
            self.rows.insert(at.y + 1, new_row);
            assert(texts(self.rows@) =~= old(self)@.rows_after_newline(*at));
        }
    }

    /// Deletes at `at`: at the end of a row that has a next row, the two rows
    /// are joined; anywhere else in a row, cluster `at.x` is removed. The
    /// document counts as changed only if something was removed.
    pub fn delete(&mut self, at: &Position)
        ensures
            final(self)@ == old(self)@.delete(*at),
            old(self)@.delete_applies(*at) ==> final(self)@.dirty,
            !old(self)@.delete_applies(*at) ==> final(self)@ == old(self)@,
            are_lines(old(self)@.rows) ==> are_lines(final(self)@.rows),
    {
        proof {
            if are_lines(old(self)@.rows) {
                lemma_delete_keeps_lines(old(self)@, *at);
            }
            if !old(self)@.delete_applies(*at) {
                lemma_delete_without_effect(old(self)@, *at);
            }
        }
        if at.y >= self.rows.len() {
            return ;
        }
        let width = self.rows[at.y].len();
        if at.x == width && at.y < self.rows.len() - 1 {
            let next_row = self.rows.remove(at.y + 1);
            self.rows[at.y].append(&next_row);
            self.dirty = true;
            assert(texts(self.rows@) =~= old(self)@.rows_after_delete(*at));
        } else {
            if at.x < width {
                self.dirty = true;
            }
            self.rows[at.y].delete(at.x);
            assert(texts(self.rows@) =~= old(self)@.rows_after_delete(*at));
        }
    }
}

} // verus!
