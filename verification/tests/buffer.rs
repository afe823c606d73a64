use avt::buffer::{Buffer, EraseMode};
use avt::dirty_lines::DirtyLines;
use avt::line::Line;
use avt::reflow::{push_split, reflow_lines, trimmed_len};
use avt::{Cell, Color, Pen};

fn text(line: &Line) -> String {
    line.cells.iter().map(|cell| cell.ch).collect()
}

fn view(buffer: &Buffer) -> Vec<String> {
    buffer.view().iter().map(text).collect()
}

fn wrapped(buffer: &Buffer) -> Vec<bool> {
    buffer.view().iter().map(|line| line.wrapped).collect()
}

fn filled(rows: &[&str]) -> Buffer {
    let mut buffer = Buffer::new(rows[0].len(), rows.len(), Pen::default());
    for (row, text) in rows.iter().enumerate() {
        for (col, ch) in text.chars().enumerate() {
            buffer.print((col, row), Cell::new(ch, Pen::default()));
        }
    }
    buffer
}

fn red() -> Pen {
    Pen {
        background: Some(Color::Indexed(1)),
        ..Pen::default()
    }
}

#[test]
fn new_buffer_is_blank_in_the_pen() {
    let buffer = Buffer::new(3, 2, red());
    assert_eq!(buffer.cols(), 3);
    assert_eq!(buffer.rows(), 2);
    assert_eq!(buffer.view().len(), 2);
    for line in buffer.view() {
        assert_eq!(line.cells, vec![Cell::blank(red()); 3]);
        assert!(!line.wrapped);
    }
}

#[test]
fn insert_takes_no_more_than_fits() {
    let mut buffer = filled(&["abcd"]);
    buffer.insert((1, 0), 2, Cell::new('x', Pen::default()));
    assert_eq!(view(&buffer), vec!["axxb"]);
    buffer.insert((2, 0), 9, Cell::new('y', Pen::default()));
    assert_eq!(view(&buffer), vec!["axyy"]);
    buffer.insert((4, 0), 1, Cell::new('z', Pen::default()));
    assert_eq!(view(&buffer), vec!["axyy"]);
}

#[test]
fn delete_fills_with_the_pen_and_unwraps() {
    let mut buffer = filled(&["abcd", "efgh"]);
    buffer.wrap(0);
    buffer.delete((1, 0), 2, &red());
    assert_eq!(view(&buffer), vec!["ad  ", "efgh"]);
    assert_eq!(buffer.view()[0].cells[2], Cell::blank(red()));
    assert_eq!(wrapped(&buffer), vec![false, false]);
    buffer.delete((2, 1), 9, &red());
    assert_eq!(view(&buffer), vec!["ad  ", "ef  "]);
}

#[test]
fn erase_next_chars_unwraps_only_at_the_end() {
    let mut buffer = filled(&["abcd", "efgh"]);
    buffer.wrap(0);
    buffer.erase((1, 0), EraseMode::NextChars(2), &Pen::default());
    assert_eq!(view(&buffer), vec!["a  d", "efgh"]);
    assert_eq!(wrapped(&buffer), vec![true, false]);
    buffer.erase((3, 0), EraseMode::NextChars(5), &Pen::default());
    assert_eq!(view(&buffer), vec!["a   ", "efgh"]);
    assert_eq!(wrapped(&buffer), vec![false, false]);
}

#[test]
fn erase_modes_of_the_view() {
    let rows = ["abc", "def", "ghi"];
    let mut buffer = filled(&rows);
    buffer.wrap(0);
    buffer.wrap(1);
    buffer.erase((1, 1), EraseMode::FromCursorToEndOfView, &Pen::default());
    assert_eq!(view(&buffer), vec!["abc", "d  ", "   "]);
    assert_eq!(wrapped(&buffer), vec![true, false, false]);

    let mut buffer = filled(&rows);
    buffer.wrap(0);
    buffer.wrap(1);
    buffer.erase((1, 1), EraseMode::FromStartOfViewToCursor, &Pen::default());
    assert_eq!(view(&buffer), vec!["   ", "  f", "ghi"]);
    assert_eq!(wrapped(&buffer), vec![false, true, false]);

    let mut buffer = filled(&rows);
    buffer.wrap(0);
    buffer.erase((1, 1), EraseMode::WholeView, &red());
    assert_eq!(view(&buffer), vec!["   ", "   ", "   "]);
    assert_eq!(wrapped(&buffer), vec![false, false, false]);
    assert_eq!(buffer.view()[2].cells[2], Cell::blank(red()));
}

#[test]
fn erase_modes_of_the_line() {
    let rows = ["abc", "def"];
    let mut buffer = filled(&rows);
    buffer.wrap(0);
    buffer.erase((1, 0), EraseMode::FromCursorToEndOfLine, &Pen::default());
    assert_eq!(view(&buffer), vec!["a  ", "def"]);
    assert_eq!(wrapped(&buffer), vec![false, false]);

    let mut buffer = filled(&rows);
    buffer.wrap(0);
    buffer.erase((1, 0), EraseMode::FromStartOfLineToCursor, &Pen::default());
    assert_eq!(view(&buffer), vec!["  c", "def"]);
    assert_eq!(wrapped(&buffer), vec![true, false]);
    buffer.erase((3, 0), EraseMode::FromStartOfLineToCursor, &Pen::default());
    assert_eq!(view(&buffer), vec!["   ", "def"]);

    let mut buffer = filled(&rows);
    buffer.wrap(0);
    buffer.erase((1, 0), EraseMode::WholeLine, &Pen::default());
    assert_eq!(view(&buffer), vec!["   ", "def"]);
    assert_eq!(wrapped(&buffer), vec![false, false]);
}

#[test]
fn scroll_up_inside_the_screen_loses_lines() {
    let mut buffer = filled(&["a", "b", "c", "d"]);
    buffer.wrap(0);
    buffer.wrap(1);
    buffer.wrap(2);
    buffer.scroll_up(1..3, 1, &red());
    assert_eq!(view(&buffer), vec!["a", "c", " ", "d"]);
    assert_eq!(wrapped(&buffer), vec![false, false, false, false]);
    assert_eq!(buffer.view()[2].cells[0], Cell::blank(red()));
    buffer.scroll_up(1..4, 9, &Pen::default());
    assert_eq!(view(&buffer), vec!["a", " ", " ", " "]);
}

#[test]
fn scroll_up_from_the_top_keeps_lines_above_the_screen() {
    let mut buffer = filled(&["a", "b", "c"]);
    buffer.scroll_up(0..3, 2, &Pen::default());
    assert_eq!(view(&buffer), vec!["c", " ", " "]);
    assert_eq!(buffer.resize(1, 5, (0, 0)), (0, 2));
    assert_eq!(view(&buffer), vec!["a", "b", "c", " ", " "]);

    let mut buffer = filled(&["a", "b", "c"]);
    buffer.scroll_up(0..2, 1, &Pen::default());
    assert_eq!(view(&buffer), vec!["b", " ", "c"]);
    buffer.resize(1, 4, (0, 0));
    assert_eq!(view(&buffer), vec!["a", "b", " ", "c"]);
}

#[test]
fn scroll_up_keeps_a_wrapped_line_that_leaves_at_the_bottom_margin() {
    let mut buffer = filled(&["a", "b"]);
    buffer.wrap(1);
    buffer.scroll_up(0..2, 1, &Pen::default());
    assert_eq!(view(&buffer), vec!["b", " "]);
    assert_eq!(wrapped(&buffer), vec![true, false]);
}

#[test]
fn scroll_down_loses_lines_at_the_bottom() {
    let mut buffer = filled(&["a", "b", "c", "d"]);
    buffer.wrap(0);
    buffer.wrap(1);
    buffer.wrap(2);
    buffer.scroll_down(1..3, 1, &red());
    assert_eq!(view(&buffer), vec!["a", " ", "b", "d"]);
    assert_eq!(wrapped(&buffer), vec![false, false, false, false]);
    assert_eq!(buffer.view()[1].cells[0], Cell::blank(red()));
    buffer.scroll_down(0..4, 9, &Pen::default());
    assert_eq!(view(&buffer), vec![" ", " ", " ", " "]);
}

#[test]
fn fill_keeps_the_continuation_flags() {
    let mut buffer = filled(&["ab", "cd"]);
    buffer.wrap(0);
    buffer.fill(Cell::new('E', Pen::default()));
    assert_eq!(view(&buffer), vec!["EE", "EE"]);
    assert_eq!(wrapped(&buffer), vec![true, false]);
}

#[test]
fn trimming_stops_at_the_last_cell_that_is_not_default() {
    let cells: Vec<Cell> = "a b  ".chars().map(Cell::from).collect();
    assert_eq!(trimmed_len(&cells), 3);
    let mut coloured = cells.clone();
    coloured[4] = Cell::blank(red());
    assert_eq!(trimmed_len(&coloured), 5);
    assert_eq!(trimmed_len(&vec![Cell::from(' '); 3]), 0);
    assert_eq!(trimmed_len(&Vec::new()), 0);
}

#[test]
fn splitting_cuts_rows_of_equal_width() {
    let cells: Vec<Cell> = "abcde".chars().map(Cell::from).collect();
    let mut rows = Vec::new();
    push_split(&mut rows, &cells, 2);
    let texts: Vec<String> = rows.iter().map(text).collect();
    assert_eq!(texts, vec!["ab", "cd", "e "]);
    let flags: Vec<bool> = rows.iter().map(|line| line.wrapped).collect();
    assert_eq!(flags, vec![true, true, false]);
    push_split(&mut rows, &Vec::new(), 2);
    assert_eq!(rows.len(), 4);
    assert_eq!(text(&rows[3]), "  ");
    let mut exact = Vec::new();
    push_split(&mut exact, &cells[..4].to_vec(), 2);
    assert_eq!(exact.len(), 2);
    assert!(!exact[1].wrapped);
}

#[test]
fn reflow_keeps_the_logical_lines() {
    let mut first = Line::new("abc".chars().map(Cell::from).collect());
    first.wrapped = true;
    let second = Line::new("d  ".chars().map(Cell::from).collect());
    let third = Line::new("   ".chars().map(Cell::from).collect());
    let fourth = Line::new("e f".chars().map(Cell::from).collect());
    let lines = vec![first, second, third, fourth];
    let (narrow, rows_at_mark, pending_at_mark) = reflow_lines(&lines, 2, 1);
    let texts: Vec<String> = narrow.iter().map(text).collect();
    assert_eq!(texts, vec!["ab", "cd", "  ", "e ", "f "]);
    let flags: Vec<bool> = narrow.iter().map(|line| line.wrapped).collect();
    assert_eq!(flags, vec![true, false, false, true, false]);
    assert_eq!((rows_at_mark, pending_at_mark), (0, 3));
    let (wide, rows_at_mark, pending_at_mark) = reflow_lines(&narrow, 5, 3);
    let texts: Vec<String> = wide.iter().map(text).collect();
    assert_eq!(texts, vec!["abcd ", "     ", "e f  "]);
    assert_eq!((rows_at_mark, pending_at_mark), (2, 0));
}

#[test]
fn dirty_lines_list_marked_rows_in_order() {
    let mut dirty = DirtyLines::new(5);
    assert_eq!(dirty.drain(), Vec::<usize>::new());
    dirty.add(3);
    dirty.add(1);
    dirty.add(3);
    dirty.add(7);
    assert_eq!(dirty.drain(), vec![1, 3]);
    assert_eq!(dirty.drain(), Vec::<usize>::new());
    dirty.extend(2..9);
    dirty.extend(4..2);
    assert_eq!(dirty.drain(), vec![2, 3, 4]);
    dirty.add(4);
    dirty.add(0);
    dirty.resize(3);
    dirty.resize(6);
    dirty.add(5);
    assert_eq!(dirty.drain(), vec![0, 5]);
}
