use hecto::Row;

fn text(r: &Row) -> String {
    r.render(0, usize::MAX)
}

#[test]
fn row_from_counts_codepoints() {
    let r = Row::from("héllo");
    assert_eq!(r.len(), 5);
    assert_eq!(text(&r), "héllo");
}

#[test]
fn row_default_is_empty() {
    let r = Row::default();
    assert_eq!(r.len(), 0);
    assert_eq!(text(&r), "");
}

#[test]
fn row_render_clamps_bounds() {
    let r = Row::from("hello");
    assert_eq!(r.render(1, 3), "el");
    assert_eq!(r.render(2, 100), "llo");
    assert_eq!(r.render(7, 9), "");
    assert_eq!(r.render(4, 2), "");
    assert_eq!(r.render(0, 0), "");
}

#[test]
fn row_render_counts_codepoints_not_bytes() {
    let r = Row::from("äöü!");
    assert_eq!(r.render(1, 3), "öü");
}

#[test]
fn row_insert_at_each_place() {
    let mut r = Row::from("ac");
    r.insert(1, 'b');
    assert_eq!(text(&r), "abc");
    r.insert(0, '>');
    assert_eq!(text(&r), ">abc");
    r.insert(4, '<');
    assert_eq!(text(&r), ">abc<");
    assert_eq!(r.len(), 5);
}

#[test]
fn row_insert_after_multibyte() {
    let mut r = Row::from("é");
    r.insert(1, 'x');
    assert_eq!(text(&r), "éx");
    assert_eq!(r.len(), 2);
}

#[test]
fn row_delete_removes_one_codepoint() {
    let mut r = Row::from("abc");
    r.delete(1);
    assert_eq!(text(&r), "ac");
    r.delete(1);
    assert_eq!(text(&r), "a");
    r.delete(0);
    assert_eq!(text(&r), "");
    assert_eq!(r.len(), 0);
}

#[test]
fn row_length_follows_edits() {
    let mut r = Row::from("");
    for (i, c) in "wörld".chars().enumerate() {
        r.insert(i, c);
        assert_eq!(r.len(), i + 1);
    }
    r.delete(1);
    assert_eq!(r.len(), 4);
    assert_eq!(r.len(), text(&r).chars().count());
}

#[test]
fn row_append_concatenates() {
    let mut r = Row::from("hello");
    r.append(&Row::from("world"));
    assert_eq!(text(&r), "helloworld");
    assert_eq!(r.len(), 10);
    r.append(&Row::default());
    assert_eq!(text(&r), "helloworld");
}

#[test]
fn row_split_then_append_gives_row_back() {
    let r = Row::from("hello");
    for at in 0..=5 {
        let (mut a, b) = r.split(at);
        assert_eq!(a.len(), at);
        assert_eq!(b.len(), 5 - at);
        a.append(&b);
        assert_eq!(text(&a), "hello");
    }
}

#[test]
fn row_char_at_reads_codepoint() {
    let r = Row::from("aßc");
    assert_eq!(r.char_at(1), 'ß');
}
