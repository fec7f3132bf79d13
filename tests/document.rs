use hecto::{Document, Position};

fn lines(d: &Document) -> Vec<String> {
    (0..d.len()).map(|i| d.row(i).unwrap().render(0, usize::MAX)).collect()
}

fn doc(text: &str) -> Document {
    Document::from_contents("notes.txt", text)
}

#[test]
fn open_splits_on_newlines() {
    let d = doc("one\ntwo\nthree");
    assert_eq!(lines(&d), vec!["one", "two", "three"]);
    assert!(!d.is_empty());
    assert_eq!(d.filename().map(|s| s.as_str()), Some("notes.txt"));
}

#[test]
fn open_final_newline_adds_no_row() {
    assert_eq!(lines(&doc("a\nb\n")), vec!["a", "b"]);
}

#[test]
fn open_keeps_empty_rows_between() {
    assert_eq!(lines(&doc("a\n\nb")), vec!["a", "", "b"]);
    assert_eq!(lines(&doc("\n")), vec![""]);
}

#[test]
fn open_strips_carriage_return_before_newline() {
    assert_eq!(lines(&doc("a\r\nb\r\n")), vec!["a", "b"]);
}

#[test]
fn open_empty_text_has_no_rows() {
    let mut d = doc("");
    assert_eq!(d.len(), 0);
    assert!(d.is_empty());
    assert!(!d.get_modified());
}

#[test]
fn default_document_is_unnamed_and_empty() {
    let d = Document::default();
    assert!(d.is_empty());
    assert!(d.filename().is_none());
}

#[test]
fn row_past_end_is_none() {
    let d = doc("a\nb");
    assert!(d.row(1).is_some());
    assert!(d.row(2).is_none());
}

#[test]
fn insert_char_in_row() {
    let mut d = doc("ac");
    d.insert(&Position { x: 1, y: 0 }, 'b');
    assert_eq!(lines(&d), vec!["abc"]);
    assert!(d.get_modified());
}

#[test]
fn insert_past_last_row_adds_row() {
    let mut d = doc("a");
    d.insert(&Position { x: 0, y: 1 }, 'z');
    assert_eq!(lines(&d), vec!["a", "z"]);
}

#[test]
fn insert_into_empty_document() {
    let mut d = Document::default();
    d.insert(&Position { x: 0, y: 0 }, 'q');
    assert_eq!(lines(&d), vec!["q"]);
}

#[test]
fn insert_newline_char_splits_row() {
    let mut d = doc("hello");
    d.insert(&Position { x: 2, y: 0 }, '\n');
    assert_eq!(lines(&d), vec!["he", "llo"]);
    assert!(d.get_modified());
}

#[test]
fn insert_newline_at_ends() {
    let mut d = doc("ab\ncd");
    d.insert_newline(&Position { x: 0, y: 0 });
    assert_eq!(lines(&d), vec!["", "ab", "cd"]);
    d.insert_newline(&Position { x: 2, y: 2 });
    assert_eq!(lines(&d), vec!["", "ab", "cd", ""]);
}

#[test]
fn insert_newline_past_last_row_changes_nothing() {
    let mut d = doc("ab");
    d.insert_newline(&Position { x: 0, y: 1 });
    assert_eq!(lines(&d), vec!["ab"]);
}

#[test]
fn delete_removes_codepoint() {
    let mut d = doc("abc\nde");
    d.delete(&Position { x: 1, y: 0 });
    assert_eq!(lines(&d), vec!["ac", "de"]);
    assert!(d.get_modified());
}

#[test]
fn delete_at_row_end_joins_next_row() {
    let mut d = doc("hello\nworld\n!");
    d.delete(&Position { x: 5, y: 0 });
    assert_eq!(lines(&d), vec!["helloworld", "!"]);
}

#[test]
fn delete_at_end_of_last_row_keeps_rows() {
    let mut d = doc("ab\ncd");
    d.delete(&Position { x: 2, y: 1 });
    assert_eq!(lines(&d), vec!["ab", "cd"]);
    assert!(d.get_modified());
}

#[test]
fn delete_past_last_row_is_noop() {
    let mut d = doc("ab");
    d.delete(&Position { x: 0, y: 1 });
    assert_eq!(lines(&d), vec!["ab"]);
    assert!(!d.get_modified());
}

#[test]
fn insert_then_delete_is_identity() {
    for (x, y) in [(0, 0), (1, 0), (3, 0), (0, 1), (2, 1)] {
        let mut d = doc("abc\nxy");
        let p = Position { x, y };
        d.insert(&p, 'Z');
        d.delete(&p);
        assert_eq!(lines(&d), vec!["abc", "xy"]);
    }
}

#[test]
fn split_then_join_is_identity() {
    for x in 0..=3 {
        let mut d = doc("abc\nxy");
        let p = Position { x, y: 0 };
        d.insert_newline(&p);
        assert_eq!(d.len(), 3);
        d.delete(&p);
        assert_eq!(lines(&d), vec!["abc", "xy"]);
    }
}

#[test]
fn serialize_ends_each_row_with_newline() {
    assert_eq!(doc("a\nb").serialize(), "a\nb\n");
    assert_eq!(doc("").serialize(), "");
    assert_eq!(doc("\n\n").serialize(), "\n\n");
}

#[test]
fn save_then_open_gives_same_rows() {
    for text in ["", "one", "one\ntwo\n", "a\n\nb", "ünï\ncödé"] {
        let d = doc(text);
        let again = doc(&d.serialize());
        assert_eq!(lines(&again), lines(&d));
    }
}

#[test]
fn mark_saved_clears_modified() {
    let mut d = doc("a");
    d.insert(&Position { x: 1, y: 0 }, 'b');
    assert!(d.get_modified());
    d.mark_saved();
    assert!(!d.get_modified());
    assert_eq!(lines(&d), vec!["ab"]);
}

#[test]
fn is_modified_follows_edits_and_saves() {
    let mut d = doc("ab");
    assert!(!d.is_modified());
    d.delete(&Position { x: 0, y: 0 });
    assert!(d.is_modified());
    assert_eq!(lines(&d), vec!["b"]);
    d.mark_saved();
    assert!(!d.is_modified());
}
