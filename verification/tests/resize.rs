use avt::buffer::Buffer;
use avt::line::Line;
use avt::{Cell, Pen, Vt};

fn text(line: &Line) -> String {
    line.cells.iter().map(|cell| cell.ch).collect()
}

fn screen(vt: &Vt) -> Vec<String> {
    vt.view().iter().map(text).collect()
}

fn wrapped(vt: &Vt) -> Vec<bool> {
    vt.view().iter().map(|line| line.wrapped).collect()
}

#[test]
fn widening_joins_a_wrapped_line() {
    let mut vt = Vt::new((3, 2));
    vt.feed_str("abcde");
    assert_eq!(screen(&vt), vec!["abc", "de "]);
    assert_eq!(wrapped(&vt), vec![true, false]);
    assert_eq!(vt.cursor(), Some((2, 1)));
    let changed = vt.resize(6, 2);
    assert_eq!(changed, vec![0, 1]);
    assert_eq!(screen(&vt), vec!["abcde ", "      "]);
    assert_eq!(wrapped(&vt), vec![false, false]);
    assert_eq!(vt.cursor(), Some((5, 0)));
}

#[test]
fn widening_with_a_pending_wrap_keeps_the_cursor_in_the_last_column() {
    let mut vt = Vt::new((3, 2));
    vt.feed_str("abcdef");
    assert_eq!(vt.cursor(), Some((3, 1)));
    vt.resize(6, 2);
    assert_eq!(screen(&vt), vec!["abcdef", "      "]);
    assert_eq!(vt.cursor(), Some((5, 0)));
    vt.feed_str("g");
    assert_eq!(screen(&vt), vec!["abcdeg", "      "]);
}

#[test]
fn narrowing_wraps_long_lines() {
    let mut vt = Vt::new((6, 3));
    vt.feed_str("abcdef\r\ngh");
    vt.resize(4, 3);
    assert_eq!(screen(&vt), vec!["ef  ", "gh  ", "    "]);
    assert_eq!(wrapped(&vt), vec![false, false, false]);
    assert_eq!(vt.cursor(), Some((2, 1)));
    vt.resize(6, 3);
    assert_eq!(screen(&vt), vec!["abcdef", "gh    ", "      "]);
    assert_eq!(wrapped(&vt), vec![false, false, false]);
    assert_eq!(vt.cursor(), Some((2, 1)));
}

#[test]
fn narrowing_pushes_lines_off_the_top() {
    let mut vt = Vt::new((4, 2));
    vt.feed_str("abcd\r\nefgh");
    vt.resize(2, 2);
    assert_eq!(screen(&vt), vec!["ef", "gh"]);
    assert_eq!(wrapped(&vt), vec![true, false]);
    assert_eq!(vt.cursor(), Some((1, 1)));
    vt.resize(4, 2);
    assert_eq!(screen(&vt), vec!["abcd", "efgh"]);
    assert_eq!(vt.cursor(), Some((3, 1)));
}

#[test]
fn fewer_rows_drop_blank_lines_below_the_cursor_first() {
    let mut vt = Vt::new((3, 4));
    vt.feed_str("a\r\nb");
    vt.resize(3, 2);
    assert_eq!(screen(&vt), vec!["a  ", "b  "]);
    assert_eq!(vt.cursor(), Some((1, 1)));
    vt.resize(3, 1);
    assert_eq!(screen(&vt), vec!["b  "]);
    assert_eq!(vt.cursor(), Some((1, 0)));
}

#[test]
fn more_rows_bring_scrolled_lines_back() {
    let mut vt = Vt::new((3, 2));
    vt.feed_str("a\r\nb\r\nc");
    assert_eq!(screen(&vt), vec!["b  ", "c  "]);
    vt.resize(3, 4);
    assert_eq!(screen(&vt), vec!["a  ", "b  ", "c  ", "   "]);
    assert_eq!(vt.cursor(), Some((1, 2)));
}

#[test]
fn resizing_to_the_same_size_changes_nothing() {
    let mut vt = Vt::new((3, 2));
    vt.feed_str("abcdef");
    let changed = vt.resize(3, 2);
    assert_eq!(changed, Vec::<usize>::new());
    assert_eq!(vt.cursor(), Some((3, 1)));
    assert_eq!(wrapped(&vt), vec![true, false]);
}

#[test]
fn resizing_resets_margins_and_drops_far_tabs() {
    let mut vt = Vt::new((20, 4));
    vt.feed_str("\x1B[2;3r");
    vt.resize(10, 3);
    vt.feed_str("\x1B[H\n\n\n\n");
    assert_eq!(vt.cursor(), Some((0, 2)));
    vt.feed_str("\r\t\t");
    assert_eq!(vt.cursor(), Some((9, 2)));
    vt.feed_str("\r\t");
    assert_eq!(vt.cursor(), Some((8, 2)));
}

#[test]
fn buffer_resize_keeps_the_cursor_in_view() {
    let mut buffer = Buffer::new(4, 2, Pen::default());
    for (col, ch) in "abcd".chars().enumerate() {
        buffer.print((col, 0), Cell::new(ch, Pen::default()));
    }
    buffer.wrap(0);
    for (col, ch) in "efgh".chars().enumerate() {
        buffer.print((col, 1), Cell::new(ch, Pen::default()));
    }
    let cursor = buffer.resize(1, 2, (0, 0));
    assert_eq!(cursor, (0, 0));
    let view: Vec<String> = buffer.view().iter().map(text).collect();
    assert_eq!(view, vec!["a", "b"]);
    assert!(buffer.view()[0].wrapped);
    assert!(!buffer.view()[1].wrapped);
}
