use klawply::selection::{columns, Selection};

fn lines() -> Vec<String> {
    vec!["hello world".into(), "second line".into(), "third".into()]
}

#[test]
fn plain_click_is_not_active() {
    let sel = Selection::new((0, 3));
    assert!(!sel.is_active());
    assert_eq!(sel.range(), None);
    assert_eq!(sel.extract(&lines()), "");
}

#[test]
fn single_line_selection_extracts_substring() {
    let mut sel = Selection::new((0, 0));
    sel.drag((0, 5));
    assert!(sel.is_active());
    assert_eq!(sel.extract(&lines()), "hello");
}

#[test]
fn multi_line_selection_flows_across_lines() {
    let mut sel = Selection::new((0, 6));
    sel.drag((2, 3));
    assert_eq!(sel.extract(&lines()), "world\nsecond line\nthi");
}

#[test]
fn reversed_drag_is_normalized() {
    let mut sel = Selection::new((1, 7));
    sel.drag((0, 6));
    assert_eq!(sel.range(), Some(((0, 6), (1, 7))));
    assert_eq!(sel.extract(&lines()), "world\nsecond ");
}

#[test]
fn direction_of_a_drag_does_not_matter() {
    let mut down = Selection::new((0, 6));
    down.drag((2, 3));
    let mut up = Selection::new((2, 3));
    up.drag((0, 6));
    assert_eq!(down.range(), up.range());
    assert_eq!(down.extract(&lines()), up.extract(&lines()));
}

#[test]
fn only_the_last_drag_counts() {
    let mut sel = Selection::new((0, 0));
    sel.drag((2, 5));
    sel.drag((0, 5));
    assert_eq!(sel.range(), Some(((0, 0), (0, 5))));
}

#[test]
fn whole_transcript_can_be_selected() {
    let mut sel = Selection::new((0, 0));
    sel.drag((2, 99));
    assert_eq!(sel.extract(&lines()), "hello world\nsecond line\nthird");
}

#[test]
fn selection_past_the_last_line_stops_there() {
    let mut sel = Selection::new((1, 7));
    sel.drag((9, 0));
    assert_eq!(sel.extract(&lines()), "line\nthird");
}

#[test]
fn selection_of_no_lines_is_empty() {
    let mut sel = Selection::new((0, 0));
    sel.drag((3, 3));
    assert_eq!(sel.extract(&[]), "");
}

#[test]
fn columns_of_first_middle_and_last_line() {
    assert_eq!(columns((1, 4), (3, 2), 1, 10), (4, 10));
    assert_eq!(columns((1, 4), (3, 2), 2, 10), (0, 10));
    assert_eq!(columns((1, 4), (3, 2), 3, 10), (0, 2));
    assert_eq!(columns((1, 4), (1, 20), 1, 10), (4, 10));
}

#[test]
fn drag_below_the_last_line_selects_the_whole_text() {
    for end in [(2, 5), (2, 9), (3, 0), (usize::MAX, 0)] {
        let mut sel = Selection::new((0, 0));
        sel.drag(end);
        assert_eq!(sel.extract(&lines()), "hello world\nsecond line\nthird");
    }
}
