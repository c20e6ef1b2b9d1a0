use hecto::row::Row;

#[test]
fn row_from_keeps_the_text() {
    let row = Row::from("hello");
    assert_eq!(row.as_str(), "hello");
    assert_eq!(row.as_bytes(), b"hello");
    assert_eq!(row.len(), 5);
    assert!(!row.is_empty());
}

#[test]
fn row_default_is_empty() {
    let row = Row::default();
    assert_eq!(row.as_str(), "");
    assert_eq!(row.len(), 0);
    assert!(row.is_empty());
}

#[test]
fn row_len_counts_grapheme_clusters() {
    // e followed by a combining acute accent is one cluster of two characters.
    let row = Row::from("he\u{301}llo");
    assert_eq!(row.as_str().chars().count(), 6);
    assert_eq!(row.len(), 5);
    // Two regional indicators make one flag.
    assert_eq!(Row::from("a\u{1F1F7}\u{1F1FA}b").len(), 3);
}

#[test]
fn row_as_bytes_is_utf8() {
    let row = Row::from("h\u{e9}");
    assert_eq!(row.as_bytes(), &[0x68, 0xc3, 0xa9]);
}

#[test]
fn row_insert_in_the_middle() {
    let mut row = Row::from("hllo");
    row.insert(1, 'e');
    assert_eq!(row.as_str(), "hello");
}

#[test]
fn row_insert_at_the_end_appends() {
    let mut row = Row::from("ab");
    row.insert(2, 'c');
    assert_eq!(row.as_str(), "abc");
}

#[test]
fn row_insert_past_the_end_appends() {
    let mut row = Row::from("ab");
    row.insert(9, 'c');
    assert_eq!(row.as_str(), "abc");
}

#[test]
fn row_insert_into_empty_row() {
    let mut row = Row::default();
    row.insert(0, 'x');
    assert_eq!(row.as_str(), "x");
}

#[test]
fn row_insert_goes_between_clusters_not_characters() {
    let mut row = Row::from("e\u{301}x");
    row.insert(1, 'a');
    assert_eq!(row.as_str(), "e\u{301}ax");
}

#[test]
fn row_insert_of_a_combining_mark_joins_its_neighbour() {
    let mut row = Row::from("ab");
    row.insert(1, '\u{301}');
    assert_eq!(row.as_str(), "a\u{301}b");
    assert_eq!(row.len(), 2);
}

#[test]
fn row_delete_removes_one_cluster() {
    let mut row = Row::from("abc");
    row.delete(1);
    assert_eq!(row.as_str(), "ac");
}

#[test]
fn row_delete_removes_a_whole_cluster() {
    let mut row = Row::from("he\u{301}llo");
    row.delete(1);
    assert_eq!(row.as_str(), "hllo");
}

#[test]
fn row_delete_at_or_past_the_end_does_nothing() {
    let mut row = Row::from("abc");
    row.delete(3);
    assert_eq!(row.as_str(), "abc");
    row.delete(100);
    assert_eq!(row.as_str(), "abc");
}

#[test]
fn row_delete_first_and_last() {
    let mut row = Row::from("abc");
    row.delete(0);
    assert_eq!(row.as_str(), "bc");
    row.delete(1);
    assert_eq!(row.as_str(), "b");
}

#[test]
fn row_append_concatenates() {
    let mut row = Row::from("foo");
    row.append(&Row::from("bar"));
    assert_eq!(row.as_str(), "foobar");
    row.append(&Row::default());
    assert_eq!(row.as_str(), "foobar");
}

#[test]
fn row_split_cuts_at_a_cluster() {
    let mut row = Row::from("he\u{301}llo");
    let rest = row.split(2);
    assert_eq!(row.as_str(), "he\u{301}");
    assert_eq!(rest.as_str(), "llo");
}

#[test]
fn row_split_at_the_ends() {
    let mut row = Row::from("abc");
    let rest = row.split(0);
    assert_eq!(row.as_str(), "");
    assert_eq!(rest.as_str(), "abc");
    let mut row = Row::from("abc");
    let rest = row.split(3);
    assert_eq!(row.as_str(), "abc");
    assert_eq!(rest.as_str(), "");
    let mut row = Row::from("abc");
    let rest = row.split(7);
    assert_eq!(row.as_str(), "abc");
    assert_eq!(rest.as_str(), "");
}

#[test]
fn row_split_then_append_gives_the_row_back() {
    for at in 0..8 {
        let mut row = Row::from("a\u{1F1F7}\u{1F1FA}\tb");
        let rest = row.split(at);
        row.append(&rest);
        assert_eq!(row.as_str(), "a\u{1F1F7}\u{1F1FA}\tb");
    }
}

#[test]
fn row_render_gives_the_clusters_in_range() {
    let row = Row::from("hello world");
    assert_eq!(row.render(0, 5), "hello");
    assert_eq!(row.render(6, 11), "world");
    assert_eq!(row.render(3, 8), "lo wo");
}

#[test]
fn row_render_clamps_end_then_start() {
    let row = Row::from("hello");
    assert_eq!(row.render(0, 100), "hello");
    assert_eq!(row.render(3, 100), "lo");
    assert_eq!(row.render(5, 100), "");
    assert_eq!(row.render(9, 100), "");
    assert_eq!(row.render(4, 2), "");
    assert_eq!(row.render(0, 0), "");
    assert_eq!(row.render(usize::MAX, usize::MAX), "");
}

#[test]
fn row_render_widens_tabs_to_two_spaces() {
    let row = Row::from("a\tb");
    assert_eq!(row.render(0, 3), "a  b");
    assert_eq!(row.render(1, 2), "  ");
    assert_eq!(row.render(0, 1), "a");
    assert_eq!(Row::from("\t\t").render(0, 2), "    ");
}

#[test]
fn row_render_counts_clusters_not_characters() {
    let row = Row::from("he\u{301}llo");
    assert_eq!(row.render(1, 3), "e\u{301}l");
    assert_eq!(row.render(0, 2), "he\u{301}");
}

#[test]
fn row_render_width_is_the_sum_of_cluster_widths() {
    // Three clusters shown, one of them a tab: 1 + 2 + 1 columns.
    let row = Row::from("xa\tby");
    let line = row.render(1, 4);
    assert_eq!(line, "a  b");
    assert_eq!(Row::from(&line[..]).len(), 4);
}

#[test]
fn row_of_an_empty_line() {
    let row = Row::from("");
    assert_eq!(row.len(), 0);
    assert!(row.is_empty());
    assert_eq!(row.render(0, 10), "");
    assert_eq!(row.as_bytes(), b"");
}
