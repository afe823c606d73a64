use avt::line::Line;
use avt::pen::Intensity;
use avt::{Cell, Color, Pen, Rgb, Vt};

fn text(line: &Line) -> String {
    line.cells.iter().map(|cell| cell.ch).collect()
}

fn screen(vt: &Vt) -> Vec<String> {
    vt.view().iter().map(text).collect()
}

#[test]
fn plain_text_wraps_at_the_last_column() {
    let mut vt = Vt::new((3, 2));
    let changed = vt.feed_str("abcdef");
    assert_eq!(screen(&vt), vec!["abc", "def"]);
    assert!(vt.view()[0].wrapped);
    assert!(!vt.view()[1].wrapped);
    assert_eq!(vt.cursor(), Some((3, 1)));
    assert_eq!(changed, vec![0, 1]);
}

#[test]
fn pending_wrap_scrolls_at_the_bottom() {
    let mut vt = Vt::new((3, 2));
    vt.feed_str("abcdefg");
    assert_eq!(screen(&vt), vec!["def", "g  "]);
    assert!(vt.view()[0].wrapped);
    assert!(!vt.view()[1].wrapped);
    assert_eq!(vt.cursor(), Some((1, 1)));
}

#[test]
fn cursor_addressing() {
    let mut vt = Vt::new((10, 3));
    let changed = vt.feed_str("\x1B[2;3HX");
    assert_eq!(vt.view()[1].cells[2].ch, 'X');
    assert_eq!(screen(&vt), vec!["          ", "  X       ", "          "]);
    assert_eq!(vt.cursor(), Some((3, 1)));
    assert_eq!(changed, vec![1]);
}

#[test]
fn erase_from_cursor_to_end_of_view() {
    let mut vt = Vt::new((4, 2));
    vt.feed_str("abcd\x1B[HXY\x1B[0J");
    assert_eq!(screen(&vt), vec!["XY  ", "    "]);
    assert_eq!(vt.cursor(), Some((2, 0)));
}

#[test]
fn insert_line_inside_the_scroll_region() {
    let mut vt = Vt::new((3, 4));
    vt.feed_str("a\r\nb\r\nc\r\nd");
    assert_eq!(screen(&vt), vec!["a  ", "b  ", "c  ", "d  "]);
    let changed = vt.feed_str("\x1B[2;3r\x1B[2H\x1B[L");
    assert_eq!(screen(&vt), vec!["a  ", "   ", "b  ", "d  "]);
    assert_eq!(vt.cursor(), Some((0, 1)));
    assert_eq!(changed, vec![1, 2]);
}

#[test]
fn truecolor_pen_stays_until_reset() {
    let mut vt = Vt::new((5, 3));
    vt.feed_str("\x1B[38;2;10;20;30mAB\x1B[0mC");
    let coloured = Pen {
        foreground: Some(Color::RGB(Rgb::new(10, 20, 30))),
        ..Pen::default()
    };
    assert_eq!(vt.view()[0].cells[0], Cell::new('A', coloured));
    assert_eq!(vt.view()[0].cells[1], Cell::new('B', coloured));
    assert_eq!(vt.view()[0].cells[2], Cell::new('C', Pen::default()));
}

#[test]
fn screen_alignment_fills_with_e() {
    let mut vt = Vt::new((4, 2));
    let changed = vt.feed_str("\x1B#8");
    for line in vt.view() {
        assert_eq!(line.cells, vec![Cell::new('E', Pen::default()); 4]);
    }
    assert_eq!(changed, vec![0, 1]);
}

#[test]
fn feeding_nothing_changes_nothing() {
    let mut vt = Vt::new((4, 2));
    vt.feed_str("ab\x1B[1m");
    let before = screen(&vt);
    let cursor = vt.cursor();
    assert_eq!(vt.feed_str(""), Vec::<usize>::new());
    assert_eq!(screen(&vt), before);
    assert_eq!(vt.cursor(), cursor);
}

#[test]
fn hard_reset_is_a_fresh_start() {
    let mut vt = Vt::new((10, 3));
    vt.feed_str("\x1B[2;3r\x1B[?6h\x1B[31mhello\r\nworld\x1B[3g\x1B(0");
    let changed = vt.feed_str("\x1Bc");
    assert_eq!(changed, vec![0, 1, 2]);
    let mut fresh = Vt::new((10, 3));
    assert_eq!(screen(&vt), screen(&fresh));
    assert_eq!(vt.cursor(), fresh.cursor());
    vt.feed_str("a\tq\x1B[5;5Hz");
    fresh.feed_str("a\tq\x1B[5;5Hz");
    assert_eq!(screen(&vt), screen(&fresh));
    assert_eq!(screen(&vt), vec!["a       q ", "          ", "    z     "]);
    assert_eq!(vt.cursor(), fresh.cursor());
    assert_eq!(vt.view()[0].cells[0], Cell::new('a', Pen::default()));
}

#[test]
fn alternate_buffer_round_trip_restores_primary() {
    let mut vt = Vt::new((5, 2));
    vt.feed_str("one\r\ntwo");
    let before = screen(&vt);
    let cursor = vt.cursor();
    let changed = vt.feed_str("\x1B[?1049h");
    assert_eq!(changed, vec![0, 1]);
    assert_eq!(screen(&vt), vec!["     ", "     "]);
    vt.feed_str("xxxxx");
    vt.feed_str("\x1B[?1049l");
    assert_eq!(screen(&vt), before);
    assert_eq!(vt.cursor(), cursor);
}

#[test]
fn one_by_one_terminal_never_moves() {
    let mut vt = Vt::new((1, 1));
    vt.feed_str("ab\r\n\x1B[5;5H\x1B[A\x1B[B\x1B[C\x1B[Dc\x1BM\x1B[L\x1B[M\x1B[2J\x1B[r");
    assert_eq!(vt.view().len(), 1);
    assert_eq!(vt.view()[0].cells.len(), 1);
    assert_eq!(vt.cursor(), Some((0, 0)));
}

#[test]
fn drawing_charset_translates_printed_characters() {
    let mut vt = Vt::new((4, 1));
    vt.feed_str("\x1B(0q\x0Eq\x0F\x1B(Bq");
    assert_eq!(screen(&vt), vec!["\u{2500}qq "]);
}

#[test]
fn hidden_cursor_has_no_position() {
    let mut vt = Vt::new((4, 1));
    vt.feed_str("\x1B[?25l");
    assert_eq!(vt.cursor(), None);
    vt.feed_str("\x1B[?25h");
    assert_eq!(vt.cursor(), Some((0, 0)));
}

#[test]
fn rendition_codes_set_the_pen() {
    let mut vt = Vt::new((8, 1));
    vt.feed_str("\x1B[1;3;4;5;7;9;31;42mA\x1B[22;23;24;25;27;39;49mB\x1B[2;95;105mC\x1B[38;5;200;48;5;17mD");
    let a = vt.view()[0].cells[0].pen;
    assert!(a.is_bold() && a.is_italic() && a.is_underline() && a.is_blink());
    assert!(a.is_inverse() && a.is_strikethrough());
    assert_eq!(a.foreground, Some(Color::Indexed(1)));
    assert_eq!(a.background, Some(Color::Indexed(2)));
    let b = vt.view()[0].cells[1].pen;
    assert_eq!(b.intensity, Intensity::Normal);
    assert!(!b.is_italic() && !b.is_underline() && !b.is_blink() && !b.is_inverse());
    assert!(b.is_strikethrough());
    assert_eq!(b.foreground, None);
    assert_eq!(b.background, None);
    let c = vt.view()[0].cells[2].pen;
    assert!(c.is_faint());
    assert_eq!(c.foreground, Some(Color::Indexed(13)));
    assert_eq!(c.background, Some(Color::Indexed(13)));
    let d = vt.view()[0].cells[3].pen;
    assert_eq!(d.foreground, Some(Color::Indexed(200)));
    assert_eq!(d.background, Some(Color::Indexed(17)));
}

#[test]
fn incomplete_colour_is_skipped() {
    let mut vt = Vt::new((4, 1));
    vt.feed_str("\x1B[38;2;1mA\x1B[0;38mB\x1B[38;7mC");
    let a = vt.view()[0].cells[0].pen;
    assert_eq!(a.foreground, None);
    assert!(a.is_bold());
    assert!(vt.view()[0].cells[1].pen.is_default());
    let c = vt.view()[0].cells[2].pen;
    assert_eq!(c.foreground, None);
    assert!(c.is_inverse());
}

#[test]
fn unimplemented_strings_change_nothing() {
    let mut vt = Vt::new((4, 2));
    vt.feed_str("ab");
    let before = screen(&vt);
    let changed = vt.feed_str("\x1B]0;title\x07\x1BP1;2|data\x1B\\\x1B_apc\x1B\\\x1B[8;10;20t\x1B[c\x1B[>4m\x1B[?u");
    assert_eq!(changed, Vec::<usize>::new());
    assert_eq!(screen(&vt), before);
    assert_eq!(vt.cursor(), Some((2, 0)));
}

#[test]
fn a_frame_shows_the_rows_and_the_cursor() {
    let mut vt = Vt::new((3, 2));
    vt.feed_str("ab\r\nc");
    let frame = vt.frame();
    assert_eq!(frame.cursor, Some((1, 1)));
    assert_eq!(frame.lines.len(), 2);
    assert_eq!(frame.lines[0], vt.view()[0].cells);
    assert_eq!(frame.lines[1], vt.view()[1].cells);
    assert_eq!(frame.lines[1][0], Cell::new('c', Pen::default()));
}

#[test]
fn a_frame_is_due_when_a_row_or_the_cursor_changes() {
    let mut vt = Vt::new((3, 2));
    let first = vt.feed_frame("", None);
    assert_eq!(first.unwrap().cursor, Some((0, 0)));
    assert!(vt.feed_frame("", vt.cursor()).is_none());
    assert!(vt.feed_frame("\x1B[1m\x1B]0;title\x07", vt.cursor()).is_none());
    let previous = vt.cursor();
    let moved = vt.feed_frame("\x1B[C", previous).unwrap();
    assert_eq!(moved.cursor, Some((1, 0)));
    let previous = vt.cursor();
    let hidden = vt.feed_frame("\x1B[?25l", previous).unwrap();
    assert_eq!(hidden.cursor, None);
    assert!(vt.feed_frame("\x1B[C", None).is_none());
    let printed = vt.feed_frame("x", None).unwrap();
    assert_eq!(printed.lines[0][2].ch, 'x');
    assert!(vt.feed_frame("\x1B[?25h", None).is_some());
    assert!(vt.feed_frame("\x1B[2;1H\x1B[1;3H", Some((2, 0))).is_none());
    assert!(vt.feed_frame("\x1B[1;2H", Some((2, 0))).is_some());
}
