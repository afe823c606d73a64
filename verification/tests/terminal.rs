use avt::line::Line;
use avt::parser::{Emulator, Parser};
use avt::terminal::Terminal;
use avt::{Cell, Color, Pen, Vt};

fn text(line: &Line) -> String {
    line.cells.iter().map(|cell| cell.ch).collect()
}

fn screen(vt: &Vt) -> Vec<String> {
    vt.view().iter().map(text).collect()
}

fn fed(size: (usize, usize), input: &str) -> Vt {
    let mut vt = Vt::new(size);
    vt.feed_str(input);
    vt
}

#[test]
fn new_terminal_is_blank_with_the_cursor_at_home() {
    let mut terminal = Terminal::new((4, 2));
    assert_eq!(terminal.cursor(), Some((0, 0)));
    assert_eq!(terminal.view().len(), 2);
    for line in terminal.view() {
        assert_eq!(line.cells, vec![Cell::blank(Pen::default()); 4]);
        assert!(!line.wrapped);
    }
    assert_eq!(terminal.changes(), Vec::<usize>::new());
}

#[test]
fn terminal_takes_events_directly() {
    let mut terminal = Terminal::new((4, 2));
    terminal.print('a');
    terminal.execute('\n');
    terminal.csi_dispatch('C', &[], &[2]);
    terminal.print('b');
    terminal.esc_dispatch('M', &[]);
    terminal.print('c');
    let rows: Vec<String> = terminal.view().iter().map(text).collect();
    assert_eq!(rows, vec!["a  c", "   b"]);
    assert_eq!(terminal.cursor(), Some((4, 0)));
    assert_eq!(terminal.changes(), vec![0, 1]);
    assert_eq!(terminal.changes(), Vec::<usize>::new());
}

#[test]
fn parser_drives_a_terminal() {
    let mut parser = Parser::default();
    let mut terminal = Terminal::new((4, 2));
    parser.feed_str("hi\x1B[2;1H!", &mut terminal);
    let rows: Vec<String> = terminal.view().iter().map(text).collect();
    assert_eq!(rows, vec!["hi  ", "!   "]);
}

#[test]
fn cursor_up_and_down_stop_at_the_margins() {
    let mut vt = fed((5, 6), "\x1B[2;5r\x1B[3;1H");
    assert_eq!(vt.cursor(), Some((0, 2)));
    vt.feed_str("\x1B[9A");
    assert_eq!(vt.cursor(), Some((0, 1)));
    vt.feed_str("\x1B[9B");
    assert_eq!(vt.cursor(), Some((0, 4)));
    vt.feed_str("\x1B[2A");
    assert_eq!(vt.cursor(), Some((0, 2)));
    vt.feed_str("\x1B[B");
    assert_eq!(vt.cursor(), Some((0, 3)));
    vt.feed_str("\x1B[6;1H\x1B[9B");
    assert_eq!(vt.cursor(), Some((0, 5)));
    vt.feed_str("\x1B[9A");
    assert_eq!(vt.cursor(), Some((0, 1)));
    vt.feed_str("\x1B[1;1H\x1B[9A");
    assert_eq!(vt.cursor(), Some((0, 0)));
    vt.feed_str("\x1B[9e");
    assert_eq!(vt.cursor(), Some((0, 4)));
}

#[test]
fn cursor_left_and_right_stop_at_the_edges() {
    let mut vt = fed((5, 1), "\x1B[3C");
    assert_eq!(vt.cursor(), Some((3, 0)));
    vt.feed_str("\x1B[9C");
    assert_eq!(vt.cursor(), Some((4, 0)));
    vt.feed_str("\x1B[2D");
    assert_eq!(vt.cursor(), Some((2, 0)));
    vt.feed_str("\x1B[9D");
    assert_eq!(vt.cursor(), Some((0, 0)));
    vt.feed_str("\x1B[2a");
    assert_eq!(vt.cursor(), Some((2, 0)));
    vt.feed_str("\x08");
    assert_eq!(vt.cursor(), Some((1, 0)));
}

#[test]
fn moving_left_from_a_pending_wrap_counts_the_sentinel() {
    let mut vt = fed((3, 1), "abc");
    assert_eq!(vt.cursor(), Some((3, 0)));
    vt.feed_str("\x08");
    assert_eq!(vt.cursor(), Some((1, 0)));
    let mut vt = fed((3, 1), "abc\x1B[D");
    assert_eq!(vt.cursor(), Some((1, 0)));
    vt.feed_str("x");
    assert_eq!(screen(&vt), vec!["axc"]);
}

#[test]
fn next_line_and_previous_line_return_to_the_first_column() {
    let mut vt = fed((5, 4), "ab\x1B[2E");
    assert_eq!(vt.cursor(), Some((0, 2)));
    vt.feed_str("cd\x1B[F");
    assert_eq!(vt.cursor(), Some((0, 1)));
}

#[test]
fn column_and_row_addressing_count_from_one() {
    let mut vt = fed((5, 4), "\x1B[3G");
    assert_eq!(vt.cursor(), Some((2, 0)));
    vt.feed_str("\x1B[9`");
    assert_eq!(vt.cursor(), Some((4, 0)));
    vt.feed_str("\x1B[3d");
    assert_eq!(vt.cursor(), Some((4, 2)));
    vt.feed_str("\x1B[9d");
    assert_eq!(vt.cursor(), Some((4, 3)));
    vt.feed_str("\x1B[2;2f");
    assert_eq!(vt.cursor(), Some((1, 1)));
    vt.feed_str("\x1B[;H");
    assert_eq!(vt.cursor(), Some((0, 0)));
}

#[test]
fn origin_mode_addresses_rows_from_the_top_margin() {
    let mut vt = fed((5, 6), "\x1B[2;4r\x1B[?6h");
    assert_eq!(vt.cursor(), Some((0, 1)));
    vt.feed_str("\x1B[2;3H");
    assert_eq!(vt.cursor(), Some((2, 2)));
    vt.feed_str("\x1B[9;1H");
    assert_eq!(vt.cursor(), Some((0, 3)));
    vt.feed_str("\x1B[?6l");
    assert_eq!(vt.cursor(), Some((0, 0)));
    vt.feed_str("\x1B[6;1H");
    assert_eq!(vt.cursor(), Some((0, 5)));
}

#[test]
fn margins_are_set_only_when_they_are_in_order() {
    let mut vt = fed((3, 4), "a\r\nb\r\nc\r\nd");
    vt.feed_str("\x1B[3;2r\x1B[4;1H\n");
    assert_eq!(screen(&vt), vec!["b  ", "c  ", "d  ", "   "]);
    vt.feed_str("\x1B[2;9r\x1B[4;1H\n");
    assert_eq!(screen(&vt), vec!["c  ", "d  ", "   ", "   "]);
    vt.feed_str("\x1B[1;2r\x1B[2;1H\n");
    assert_eq!(screen(&vt), vec!["d  ", "   ", "   ", "   "]);
    assert_eq!(vt.cursor(), Some((0, 1)));
}

#[test]
fn line_feed_scrolls_only_between_the_margins() {
    let mut vt = fed((2, 4), "a\r\nb\r\nc\r\nd\x1B[2;3r\x1B[3;1H");
    let changed = vt.feed_str("\n");
    assert_eq!(screen(&vt), vec!["a ", "c ", "  ", "d "]);
    assert_eq!(changed, vec![1, 2]);
    assert_eq!(vt.cursor(), Some((0, 2)));
    vt.feed_str("\x1B[2;1H\x1BM");
    assert_eq!(screen(&vt), vec!["a ", "  ", "c ", "d "]);
    vt.feed_str("\x1B[4;1H\n\x0B\x0C");
    assert_eq!(vt.cursor(), Some((0, 3)));
    assert_eq!(screen(&vt), vec!["a ", "  ", "c ", "d "]);
    vt.feed_str("\x1B[1;1H\x1BM");
    assert_eq!(vt.cursor(), Some((0, 0)));
    assert_eq!(screen(&vt), vec!["a ", "  ", "c ", "d "]);
}

#[test]
fn reverse_index_moves_up_one_row_in_origin_mode_too() {
    let mut vt = fed((2, 5), "\x1B[2;4r\x1B[?6h\x1B[3;1H");
    assert_eq!(vt.cursor(), Some((0, 3)));
    vt.feed_str("\x1BM");
    assert_eq!(vt.cursor(), Some((0, 2)));
}

#[test]
fn new_line_mode_adds_a_carriage_return() {
    let mut vt = fed((4, 3), "ab\n");
    assert_eq!(vt.cursor(), Some((2, 1)));
    vt.feed_str("\x1B[20hcd\n");
    assert_eq!(vt.cursor(), Some((0, 2)));
    vt.feed_str("\x1B[20lef\x1B[A\n");
    assert_eq!(vt.cursor(), Some((2, 2)));
}

#[test]
fn c1_controls_act_like_their_escape_sequences() {
    let mut by_escape = fed((12, 3), "abc\x1BD\x1BE\x1BHx\x1BM\r\t");
    let mut by_control = fed((12, 3), "abc\u{84}\u{85}\u{88}x\u{8d}\r\t");
    assert_eq!(screen(&by_escape), screen(&by_control));
    assert_eq!(by_escape.cursor(), by_control.cursor());
    assert_eq!(by_escape.cursor(), Some((8, 1)));
    by_escape.feed_str("\x1B[3;1H\x1B[5C\u{88}\r\t");
    by_control.feed_str("\u{9b}3;1H\u{9b}5C\x1BH\r\t");
    assert_eq!(by_escape.cursor(), Some((5, 2)));
    assert_eq!(by_control.cursor(), Some((5, 2)));
}

#[test]
fn tabs_move_between_stops() {
    let mut vt = fed((20, 1), "\t");
    assert_eq!(vt.cursor(), Some((8, 0)));
    vt.feed_str("\t");
    assert_eq!(vt.cursor(), Some((16, 0)));
    vt.feed_str("\t");
    assert_eq!(vt.cursor(), Some((19, 0)));
    vt.feed_str("\x1B[2Z");
    assert_eq!(vt.cursor(), Some((8, 0)));
    vt.feed_str("\x1B[Z\x1B[Z");
    assert_eq!(vt.cursor(), Some((0, 0)));
    vt.feed_str("\x1B[2I");
    assert_eq!(vt.cursor(), Some((16, 0)));
    vt.feed_str("\x1B[g\r\x1B[3C\x1B[W\r\t");
    assert_eq!(vt.cursor(), Some((3, 0)));
    vt.feed_str("\t");
    assert_eq!(vt.cursor(), Some((8, 0)));
    vt.feed_str("\x1B[2W\r\x1B[3C\t");
    assert_eq!(vt.cursor(), Some((19, 0)));
    vt.feed_str("\x1B[3g\r\t");
    assert_eq!(vt.cursor(), Some((19, 0)));
    vt.feed_str("\r\x1B[4C\x1BH\x1B[5W\r\t");
    assert_eq!(vt.cursor(), Some((19, 0)));
}

#[test]
fn no_tab_is_set_in_the_first_column() {
    let mut vt = fed((20, 1), "\x1B[3g\x1BH\x1B[9C\x1B[Z");
    assert_eq!(vt.cursor(), Some((0, 0)));
    vt.feed_str("\t");
    assert_eq!(vt.cursor(), Some((19, 0)));
}

#[test]
fn insert_and_delete_characters() {
    let mut vt = fed((5, 1), "abcde\x1B[2G\x1B[2@");
    assert_eq!(screen(&vt), vec!["a  bc"]);
    vt.feed_str("\x1B[P");
    assert_eq!(screen(&vt), vec!["a bc "]);
    vt.feed_str("\x1B[9P");
    assert_eq!(screen(&vt), vec!["a    "]);
    let mut vt = fed((3, 1), "abc\x1B[P");
    assert_eq!(screen(&vt), vec!["ab "]);
    assert_eq!(vt.cursor(), Some((2, 0)));
    vt.feed_str("\x1B[2Gx\x1B[1G\x1B[4hyz");
    assert_eq!(screen(&vt), vec!["yza"]);
    vt.feed_str("\x1B[4l\x1B[1Gq");
    assert_eq!(screen(&vt), vec!["qza"]);
}

#[test]
fn erase_characters_and_lines() {
    let mut vt = fed((5, 2), "abcde\r\nfghij\x1B[1;2H\x1B[2X");
    assert_eq!(screen(&vt), vec!["a  de", "fghij"]);
    assert_eq!(vt.cursor(), Some((1, 0)));
    vt.feed_str("\x1B[2;3H\x1B[1K");
    assert_eq!(screen(&vt), vec!["a  de", "   ij"]);
    vt.feed_str("\x1B[K");
    assert_eq!(screen(&vt), vec!["a  de", "     "]);
    vt.feed_str("\x1B[1;1H\x1B[2K");
    assert_eq!(screen(&vt), vec!["     ", "     "]);
    let changed = vt.feed_str("x\x1B[2;1Hy\x1B[1J");
    assert_eq!(screen(&vt), vec!["     ", "     "]);
    assert_eq!(changed, vec![0, 1]);
    vt.feed_str("ab\x1B[2J");
    assert_eq!(screen(&vt), vec!["     ", "     "]);
    vt.feed_str("\rab\x1B[9J\x1B[9K");
    assert_eq!(screen(&vt), vec!["     ", "ab   "]);
}

#[test]
fn erasing_uses_the_background_of_the_pen() {
    let vt = fed((2, 1), "ab\x1B[44m\x1B[2K");
    let blue = Pen {
        background: Some(Color::Indexed(4)),
        ..Pen::default()
    };
    assert_eq!(vt.view()[0].cells, vec![Cell::blank(blue); 2]);
}

#[test]
fn insert_and_delete_lines() {
    let mut vt = fed((1, 5), "a\r\nb\r\nc\r\nd\r\ne\x1B[2;4r\x1B[3;1H\x1B[L");
    assert_eq!(screen(&vt), vec!["a", "b", " ", "c", "e"]);
    vt.feed_str("\x1B[2M");
    assert_eq!(screen(&vt), vec!["a", "b", " ", " ", "e"]);
    vt.feed_str("\x1B[5;1H\x1B[L");
    assert_eq!(screen(&vt), vec!["a", "b", " ", " ", " "]);
    vt.feed_str("\x1B[r\x1B[1;1H\x1B[M");
    assert_eq!(screen(&vt), vec!["b", " ", " ", " ", " "]);
}

#[test]
fn scroll_up_and_down_between_the_margins() {
    let mut vt = fed((1, 4), "a\r\nb\r\nc\r\nd\x1B[2;3r\x1B[S");
    assert_eq!(screen(&vt), vec!["a", "c", " ", "d"]);
    let changed = vt.feed_str("\x1B[T");
    assert_eq!(screen(&vt), vec!["a", " ", "c", "d"]);
    assert_eq!(changed, vec![1, 2]);
    vt.feed_str("\x1B[9T");
    assert_eq!(screen(&vt), vec!["a", " ", " ", "d"]);
}

#[test]
fn repeat_prints_the_character_before_the_cursor() {
    let mut vt = fed((5, 2), "\x1B[3bx\x1B[2b");
    assert_eq!(screen(&vt), vec!["xxx  ", "     "]);
    vt.feed_str("\x1B[4b");
    assert_eq!(screen(&vt), vec!["xxxxx", "xx   "]);
    assert_eq!(vt.cursor(), Some((2, 1)));
}

#[test]
fn without_automatic_wrapping_the_last_column_is_overwritten() {
    let mut vt = fed((3, 2), "\x1B[?7labcde");
    assert_eq!(screen(&vt), vec!["abe", "   "]);
    assert_eq!(vt.cursor(), Some((2, 0)));
    vt.feed_str("\x1B[?7hfg");
    assert_eq!(screen(&vt), vec!["abf", "g  "]);
}

#[test]
fn save_and_restore_keep_cursor_and_pen() {
    let mut vt = fed((5, 2), "\x1B[31ma\x1B7\x1B[2;3H\x1B[0mb\x1B8c");
    assert_eq!(screen(&vt), vec!["ac   ", "  b  "]);
    let red = Some(Color::Indexed(1));
    assert_eq!(vt.view()[0].cells[1].pen.foreground, red);
    assert_eq!(vt.view()[1].cells[2].pen.foreground, None);
    vt.feed_str("\x1B[s\x1B[2;1H\x1B[ud");
    assert_eq!(screen(&vt), vec!["acd  ", "  b  "]);
    vt.feed_str("\x1B[?1048h\x1B[2;1H\x1B[?1048le");
    assert_eq!(screen(&vt), vec!["acde ", "  b  "]);
}

#[test]
fn saving_a_pending_wrap_keeps_the_last_column() {
    let mut vt = fed((3, 2), "abc\x1B7\x1B[2;1H\x1B8");
    assert_eq!(vt.cursor(), Some((2, 0)));
    vt.feed_str("x");
    assert_eq!(screen(&vt), vec!["abx", "   "]);
}

#[test]
fn alternate_buffer_is_blank_in_the_pen_and_keeps_the_cursor() {
    let mut vt = fed((3, 2), "ab\x1B[42m\x1B[?47h");
    assert_eq!(screen(&vt), vec!["   ", "   "]);
    assert_eq!(vt.view()[0].cells[0].pen.background, Some(Color::Indexed(2)));
    assert_eq!(vt.cursor(), Some((2, 0)));
    vt.feed_str("x\x1B[?1047l");
    assert_eq!(screen(&vt), vec!["ab ", "   "]);
    assert_eq!(vt.cursor(), Some((3, 0)));
    assert_eq!(vt.feed_str("\x1B[?47l"), Vec::<usize>::new());
    vt.feed_str("\x1B[?1047hq\x1B[?1047h");
    assert_eq!(screen(&vt), vec!["   ", "q  "]);
}

#[test]
fn soft_reset_keeps_the_screen() {
    let mut vt = fed((4, 3), "ab\x1B[2;3r\x1B[?6h\x1B[4h\x1B[31m\x1B(0\x1B[?25l\x1B7\x1B[!p");
    assert_eq!(screen(&vt), vec!["ab  ", "    ", "    "]);
    assert_eq!(vt.cursor(), Some((0, 1)));
    vt.feed_str("\x1B[3;1Hq\n");
    assert_eq!(vt.cursor(), Some((1, 2)));
    assert_eq!(screen(&vt), vec!["    ", "q   ", "    "]);
    assert!(vt.view()[1].cells[0].pen.is_default());
    vt.feed_str("\x1B8");
    assert_eq!(vt.cursor(), Some((0, 0)));
}

#[test]
fn sixteen_bit_parameters_do_not_overflow() {
    let mut vt = fed((5, 3), "\x1B[99999999999;3H");
    assert_eq!(vt.cursor(), Some((2, 2)));
    vt.feed_str("\x1B[65535A\x1B[65536C");
    assert_eq!(vt.cursor(), Some((4, 0)));
}

#[test]
fn ignored_sequences_leave_no_trace() {
    let mut vt = fed((6, 1), "a\x1B[1:2mb\x1B[?1;2$zc\x1B[<5hd\x18e\x1B[3\x1Af");
    assert_eq!(screen(&vt), vec!["abcdef"]);
    assert_eq!(vt.cursor(), Some((6, 0)));
    vt.feed_str("\r\u{98}hidden\u{9c}\u{90}1;2qdata\u{9c}\u{9d}title\u{9c}\u{9e}pm\x1B\\\u{9f}apc\u{9c}x");
    assert_eq!(screen(&vt), vec!["xbcdef"]);
}

#[test]
fn characters_above_ascii_are_printed() {
    let vt = fed((4, 1), "é日\u{1F600}");
    assert_eq!(screen(&vt), vec!["é日\u{1F600} "]);
    assert_eq!(vt.cursor(), Some((3, 0)));
}

#[test]
fn what_holds_between_feeds_holds_after_a_long_input() {
    let mut vt = Vt::new((7, 4));
    let input = "hello world, this wraps\r\n\tx\x1B[2;3r\x1B[5;5Habc\x1B[3L\x1B[2M\x1B[?6h\x1B[9;9H\
                 zzzzzzzzzz\x1B[?1049h\x1B[2J1234567890\x1B[?1049l\x1B[3g\x1B[4h!!\x1B[4l\x1B[9b\
                 \x1BM\x1BM\x1BM\x1BM\n\n\n\n\n\x1B[1;99H\x1B[99;1H";
    for ch in input.chars() {
        let changed = vt.feed_str(&ch.to_string());
        assert_eq!(vt.view().len(), 4);
        for line in vt.view() {
            assert_eq!(line.cells.len(), 7);
        }
        assert!(!vt.view()[3].wrapped);
        let (col, row) = vt.cursor().unwrap();
        assert!(row < 4 && col <= 7);
        assert!(changed.iter().all(|row| *row < 4));
        assert!(changed.windows(2).all(|pair| pair[0] < pair[1]));
    }
}
