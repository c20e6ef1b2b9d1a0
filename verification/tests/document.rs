use hecto::document::{Document, Position};

fn rows_of(doc: &Document) -> Vec<String> {
    let mut rows = Vec::new();
    for index in 0..doc.len() {
        rows.push(String::from(doc.row(index).unwrap().as_str()));
    }
    rows
}

fn at(x: usize, y: usize) -> Position {
    Position { x, y }
}

#[test]
fn document_default_is_empty_and_clean() {
    let doc = Document::default();
    assert_eq!(doc.len(), 0);
    assert!(doc.is_empty());
    assert!(!doc.is_dirty());
    assert!(doc.filename.is_none());
    assert!(doc.file_name().is_none());
    assert!(doc.row(0).is_none());
}

#[test]
fn document_open_splits_lines() {
    let doc = Document::open("a.txt", "foo\nbar\n");
    assert_eq!(rows_of(&doc), vec!["foo", "bar"]);
    assert!(!doc.is_dirty());
    assert_eq!(doc.filename, Some(String::from("a.txt")));
    assert_eq!(doc.file_name(), Some(&String::from("a.txt")));
    assert!(!doc.is_empty());
}

#[test]
fn document_open_without_final_line_feed() {
    let doc = Document::open("a.txt", "foo\nbar");
    assert_eq!(rows_of(&doc), vec!["foo", "bar"]);
}

#[test]
fn document_open_of_an_empty_file_has_no_rows() {
    let doc = Document::open("a.txt", "");
    assert_eq!(doc.len(), 0);
    assert!(doc.is_empty());
}

#[test]
fn document_open_keeps_empty_lines() {
    assert_eq!(rows_of(&Document::open("a", "\n")), vec![""]);
    assert_eq!(rows_of(&Document::open("a", "a\n\nb\n")), vec!["a", "", "b"]);
    assert_eq!(rows_of(&Document::open("a", "\n\n")), vec!["", ""]);
}

#[test]
fn document_open_strips_carriage_returns() {
    let doc = Document::open("a.txt", "foo\r\nbar\r\n");
    assert_eq!(rows_of(&doc), vec!["foo", "bar"]);
}

#[test]
fn document_open_keeps_tabs_and_wide_text() {
    let doc = Document::open("a.txt", "\tx\nhe\u{301}llo\n");
    assert_eq!(rows_of(&doc), vec!["\tx", "he\u{301}llo"]);
    assert_eq!(doc.row(1).unwrap().len(), 5);
}

#[test]
fn document_row_past_the_end_is_none() {
    let doc = Document::open("a.txt", "foo\n");
    assert!(doc.row(0).is_some());
    assert!(doc.row(1).is_none());
    assert!(doc.row(usize::MAX).is_none());
}

#[test]
fn document_insert_into_a_row() {
    let mut doc = Document::open("a.txt", "hllo\n");
    doc.insert(&at(1, 0), 'e');
    assert_eq!(rows_of(&doc), vec!["hello"]);
    assert!(doc.is_dirty());
}

#[test]
fn document_insert_past_the_last_row_appends_a_row() {
    let mut doc = Document::default();
    doc.insert(&at(0, 0), 'a');
    assert_eq!(rows_of(&doc), vec!["a"]);
    assert!(doc.is_dirty());
    doc.insert(&at(0, 1), 'b');
    assert_eq!(rows_of(&doc), vec!["a", "b"]);
}

#[test]
fn document_insert_below_the_document_sets_dirty_only() {
    let mut doc = Document::open("a.txt", "foo\n");
    doc.insert(&at(0, 5), 'x');
    assert_eq!(rows_of(&doc), vec!["foo"]);
    assert!(doc.is_dirty());
}

#[test]
fn document_insert_newline_splits_the_row() {
    let mut doc = Document::open("a.txt", "foobar\nbaz\n");
    doc.insert(&at(3, 0), '\n');
    assert_eq!(rows_of(&doc), vec!["foo", "bar", "baz"]);
    assert!(doc.is_dirty());
}

#[test]
fn document_insert_newline_keeps_the_rows_text() {
    for x in 0..9 {
        let mut doc = Document::open("a.txt", "one\nhe\u{301}l\tlo\nthree\n");
        doc.insert(&at(x, 1), '\n');
        assert_eq!(doc.len(), 4);
        let mut joined = String::from(doc.row(1).unwrap().as_str());
        joined.push_str(doc.row(2).unwrap().as_str());
        assert_eq!(joined, "he\u{301}l\tlo");
        assert_eq!(doc.row(0).unwrap().as_str(), "one");
        assert_eq!(doc.row(3).unwrap().as_str(), "three");
    }
}

#[test]
fn document_insert_newline_at_the_ends_of_a_row() {
    let mut doc = Document::open("a.txt", "foo\n");
    doc.insert(&at(0, 0), '\n');
    assert_eq!(rows_of(&doc), vec!["", "foo"]);
    let mut doc = Document::open("a.txt", "foo\n");
    doc.insert(&at(3, 0), '\n');
    assert_eq!(rows_of(&doc), vec!["foo", ""]);
}

#[test]
fn document_insert_newline_past_the_last_row_appends_an_empty_row() {
    let mut doc = Document::open("a.txt", "foo\n");
    doc.insert(&at(0, 1), '\n');
    assert_eq!(rows_of(&doc), vec!["foo", ""]);
    doc.insert(&at(0, 9), '\n');
    assert_eq!(rows_of(&doc), vec!["foo", "", ""]);
}

#[test]
fn document_delete_removes_a_cluster() {
    let mut doc = Document::open("a.txt", "he\u{301}llo\n");
    doc.delete(&at(1, 0));
    assert_eq!(rows_of(&doc), vec!["hllo"]);
    assert!(doc.is_dirty());
}

#[test]
fn document_delete_at_end_of_row_joins_the_next_row() {
    let mut doc = Document::open("a.txt", "foo\nbar\nbaz\n");
    doc.delete(&at(3, 0));
    assert_eq!(rows_of(&doc), vec!["foobar", "baz"]);
    assert!(doc.is_dirty());
}

#[test]
fn document_delete_at_end_of_last_row_does_nothing() {
    let mut doc = Document::open("a.txt", "abc\n");
    doc.delete(&at(3, 0));
    assert_eq!(rows_of(&doc), vec!["abc"]);
    assert!(!doc.is_dirty());
}

#[test]
fn document_delete_past_the_last_row_does_nothing() {
    let mut doc = Document::open("a.txt", "abc\n");
    doc.delete(&at(0, 1));
    assert_eq!(rows_of(&doc), vec!["abc"]);
    assert!(!doc.is_dirty());
    doc.delete(&at(0, 7));
    assert_eq!(rows_of(&doc), vec!["abc"]);
    assert!(!doc.is_dirty());
}

#[test]
fn document_delete_past_the_end_of_a_row_does_nothing() {
    let mut doc = Document::open("a.txt", "abc\ndef\n");
    doc.delete(&at(5, 0));
    assert_eq!(rows_of(&doc), vec!["abc", "def"]);
    assert!(!doc.is_dirty());
}

#[test]
fn document_delete_undoes_insert_newline() {
    for x in 0..9 {
        let mut doc = Document::open("a.txt", "one\nhe\u{301}l\tlo\nthree\n");
        doc.insert(&at(x, 1), '\n');
        let end = doc.row(1).unwrap().len();
        doc.delete(&at(end, 1));
        assert_eq!(rows_of(&doc), vec!["one", "he\u{301}l\tlo", "three"]);
    }
}

#[test]
fn document_as_bytes_ends_every_row_with_a_line_feed() {
    let doc = Document::open("a.txt", "foo\nbar");
    assert_eq!(doc.as_bytes(), b"foo\nbar\n");
    assert_eq!(Document::default().as_bytes(), b"");
    assert_eq!(Document::open("a", "\n").as_bytes(), b"\n");
    assert_eq!(Document::open("a", "h\u{e9}\n").as_bytes(), &[0x68, 0xc3, 0xa9, 0x0a]);
}

#[test]
fn document_save_clears_dirty() {
    let mut doc = Document::open("a.txt", "foo\n");
    doc.insert(&at(0, 0), 'x');
    assert!(doc.is_dirty());
    doc.save();
    assert!(!doc.is_dirty());
    assert_eq!(rows_of(&doc), vec!["xfoo"]);
}

#[test]
fn document_save_without_a_file_name_changes_nothing() {
    let mut doc = Document::default();
    doc.insert(&at(0, 0), 'x');
    doc.save();
    assert!(doc.is_dirty());
    assert_eq!(rows_of(&doc), vec!["x"]);
}

#[test]
fn document_set_file_name_names_the_file() {
    let mut doc = Document::default();
    doc.set_file_name(String::from("t.txt"));
    assert_eq!(doc.file_name(), Some(&String::from("t.txt")));
    assert!(!doc.is_dirty());
}

#[test]
fn document_open_after_save_gives_the_same_rows() {
    let mut doc = Document::open("a.txt", "one\nhe\u{301}llo\n\n\tend");
    doc.insert(&at(2, 0), 'x');
    doc.insert(&at(0, 4), 'y');
    let bytes = doc.as_bytes();
    let content = String::from_utf8(bytes).unwrap();
    let again = Document::open("a.txt", &content);
    assert_eq!(rows_of(&again), rows_of(&doc));
    assert_eq!(again.len(), doc.len());
    for index in 0..doc.len() {
        assert_eq!(again.row(index).unwrap().len(), doc.row(index).unwrap().len());
    }
}
