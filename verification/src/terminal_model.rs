use crate::buffer::{min, BufferModel, EraseMode};
use crate::cell::Cell;
use crate::charset::Charset;
use crate::color::{low_byte, Color, Rgb};
use crate::dirty_lines::{all_dirty, clean, marked, marked_range};
use crate::parser::Event;
use crate::reflow::{empty_lines, logical_text};
use crate::pen::{
    Intensity, Pen, BLINK_MASK, INVERSE_MASK, ITALIC_MASK, STRIKETHROUGH_MASK, UNDERLINE_MASK,
};
use crate::tabs::{
    increasing, initial_stops, stop_after, stop_before, stops_below, with_stop, without_stop,
};
use vstd::prelude::*;

verus! {

/// Which of the two buffers of a terminal is on screen.
#[derive(Debug, Clone, Copy, PartialEq, Eq, Structural)]
pub enum BufferType {
    Primary,
    Alternate,
}

/// What saving the cursor keeps: its place, the pen, and two modes.
pub struct SavedModel {
    pub cursor_col: int,
    pub cursor_row: int,
    pub pen: Pen,
    pub origin_mode: bool,
    pub auto_wrap_mode: bool,
}

impl SavedModel {
    /// What is kept before anything was saved.
    pub open spec fn initial() -> SavedModel {
        SavedModel {
            cursor_col: 0,
            cursor_row: 0,
            pen: Pen::default_pen(),
            origin_mode: false,
            auto_wrap_mode: true,
        }
    }

    /// What is kept, with the place no further right or down than a screen
    /// of the given size reaches.
    pub open spec fn within(self, cols: int, rows: int) -> SavedModel {
        SavedModel {
            cursor_col: min(self.cursor_col, cols - 1),
            cursor_row: min(self.cursor_row, rows - 1),
            ..self
        }
    }

    /// The saved place is on a screen of the given size.
    pub open spec fn fits(self, cols: int, rows: int) -> bool {
        0 <= self.cursor_col < cols && 0 <= self.cursor_row < rows
    }
}

/// The larger of two numbers.
pub open spec fn max(a: int, b: int) -> int {
    if a >= b {
        a
    } else {
        b
    }
}

/// The parameter at `index`, or `default` where it is missing or zero.
pub open spec fn param(params: Seq<u16>, index: int, default: int) -> int {
    if 0 <= index < params.len() && params[index] != 0 {
        params[index] as int
    } else {
        default
    }
}

/// A pen after one code of a graphic rendition that takes no further
/// parameters. Codes that are not known leave the pen as it is.
pub open spec fn sgr_simple(pen: Pen, code: u16) -> Pen {
    if code == 0 {
        Pen::default_pen()
    } else if code == 1 {
        Pen { intensity: Intensity::Bold, ..pen }
    } else if code == 2 {
        Pen { intensity: Intensity::Faint, ..pen }
    } else if code == 3 {
        pen.with_flag(ITALIC_MASK)
    } else if code == 4 {
        pen.with_flag(UNDERLINE_MASK)
    } else if code == 5 {
        pen.with_flag(BLINK_MASK)
    } else if code == 7 {
        pen.with_flag(INVERSE_MASK)
    } else if code == 9 {
        pen.with_flag(STRIKETHROUGH_MASK)
    } else if code == 21 || code == 22 {
        Pen { intensity: Intensity::Normal, ..pen }
    } else if code == 23 {
        pen.without_flag(ITALIC_MASK)
    } else if code == 24 {
        pen.without_flag(UNDERLINE_MASK)
    } else if code == 25 {
        pen.without_flag(BLINK_MASK)
    } else if code == 27 {
        pen.without_flag(INVERSE_MASK)
    } else if 30 <= code <= 37 {
        Pen { foreground: Some(Color::Indexed((code - 30) as u8)), ..pen }
    } else if code == 39 {
        Pen { foreground: None, ..pen }
    } else if 40 <= code <= 47 {
        Pen { background: Some(Color::Indexed((code - 40) as u8)), ..pen }
    } else if code == 49 {
        Pen { background: None, ..pen }
    } else if 90 <= code <= 97 {
        Pen { foreground: Some(Color::Indexed((code - 90 + 8) as u8)), ..pen }
    } else if 100 <= code <= 107 {
        Pen { background: Some(Color::Indexed((code - 100 + 8) as u8)), ..pen }
    } else {
        pen
    }
}

/// The colour that the parameters from `at` on select after a code 38 or 48,
/// if they are complete: `2;r;g;b` a direct colour, `5;i` an entry of the
/// palette.
pub open spec fn sgr_color(params: Seq<u16>, at: int) -> Option<Color> {
    if at < params.len() && params[at] == 2 && at + 3 < params.len() {
        Some(
            Color::RGB(
                Rgb {
                    r: low_byte(params[at + 1]),
                    g: low_byte(params[at + 2]),
                    b: low_byte(params[at + 3]),
                },
            ),
        )
    } else if at < params.len() && params[at] == 5 && at + 1 < params.len() {
        Some(Color::Indexed(low_byte(params[at + 1])))
    } else {
        None
    }
}

/// How many parameters a code 38 or 48 at `at - 1` takes up, itself
/// included: five for a direct colour, three for an entry of the palette,
/// two where the kind is 2 or 5 but values are missing, and one otherwise.
pub open spec fn sgr_color_width(params: Seq<u16>, at: int) -> int {
    if at < params.len() && params[at] == 2 {
        if at + 3 < params.len() {
            5
        } else {
            2
        }
    } else if at < params.len() && params[at] == 5 {
        if at + 1 < params.len() {
            3
        } else {
            2
        }
    } else {
        1
    }
}

/// A pen after the parameters of a graphic rendition from `from` on, read
/// from left to right.
pub open spec fn sgr(pen: Pen, params: Seq<u16>, from: int) -> Pen
    decreases params.len() - from,
{
    if from < 0 || from >= params.len() {
        pen
    } else if params[from] == 38 {
        let next = match sgr_color(params, from + 1) {
            Some(color) => Pen { foreground: Some(color), ..pen },
            None => pen,
        };
        sgr(next, params, from + sgr_color_width(params, from + 1))
    } else if params[from] == 48 {
        let next = match sgr_color(params, from + 1) {
            Some(color) => Pen { background: Some(color), ..pen },
            None => pen,
        };
        sgr(next, params, from + sgr_color_width(params, from + 1))
    } else {
        sgr(sgr_simple(pen, params[from]), params, from + 1)
    }
}

/// The value of a terminal: everything that decides what it shows and how
/// it acts on the next event, and which rows have changed.
pub struct TerminalModel {
    pub cols: int,
    pub rows: int,
    pub buffer: BufferModel,
    pub other_buffer: BufferModel,
    pub active_buffer_type: BufferType,
    pub cursor_col: int,
    pub cursor_row: int,
    pub cursor_visible: bool,
    pub pen: Pen,
    pub charsets: (Charset, Charset),
    pub active_charset: int,
    pub tabs: Seq<usize>,
    pub insert_mode: bool,
    pub origin_mode: bool,
    pub auto_wrap_mode: bool,
    pub new_line_mode: bool,
    pub next_print_wraps: bool,
    pub top_margin: int,
    pub bottom_margin: int,
    pub saved_ctx: SavedModel,
    pub alternate_saved_ctx: SavedModel,
    pub dirty: Seq<bool>,
}

impl TerminalModel {
    /// A terminal of the given size before any input: blank buffers, the
    /// cursor at the top left, a tab stop at every eighth column, the margins
    /// at the first and last row, automatic wrapping on, and no row changed.
    pub open spec fn new(cols: int, rows: int) -> TerminalModel {
        TerminalModel {
            cols,
            rows,
            buffer: BufferModel::blank(cols as nat, rows as nat, Pen::default_pen()),
            other_buffer: BufferModel::blank(cols as nat, rows as nat, Pen::default_pen()),
            active_buffer_type: BufferType::Primary,
            cursor_col: 0,
            cursor_row: 0,
            cursor_visible: true,
            pen: Pen::default_pen(),
            charsets: (Charset::Ascii, Charset::Ascii),
            active_charset: 0,
            tabs: initial_stops(cols as usize),
            insert_mode: false,
            origin_mode: false,
            auto_wrap_mode: true,
            new_line_mode: false,
            next_print_wraps: false,
            top_margin: 0,
            bottom_margin: rows - 1,
            saved_ctx: SavedModel::initial(),
            alternate_saved_ctx: SavedModel::initial(),
            dirty: clean(rows as nat),
        }
    }

    /// Everything that holds of a terminal between events, but for the last
    /// row of the buffer on screen, which may run on.
    pub open spec fn wf_open(self) -> bool {
        &&& 1 <= self.cols <= usize::MAX
        &&& 1 <= self.rows <= usize::MAX
        &&& self.buffer.wf()
        &&& self.buffer.cols == self.cols
        &&& self.buffer.rows == self.rows
        &&& self.other_buffer.wf()
        &&& self.other_buffer.cols == self.cols
        &&& self.other_buffer.rows == self.rows
        &&& !self.other_buffer.row(self.rows - 1).wrapped
        &&& 0 <= self.cursor_row < self.rows
        &&& 0 <= self.cursor_col <= self.cols
        &&& (self.cursor_col == self.cols) == self.next_print_wraps
        &&& 0 <= self.top_margin <= self.bottom_margin < self.rows
        &&& self.rows > 1 ==> self.top_margin < self.bottom_margin
        &&& increasing(self.tabs)
        &&& forall|i: int| 0 <= i < self.tabs.len() ==> self.tabs[i] < self.cols
        &&& self.saved_ctx.fits(self.cols, self.rows)
        &&& self.alternate_saved_ctx.fits(self.cols, self.rows)
        &&& (self.active_charset == 0 || self.active_charset == 1)
        &&& self.dirty.len() == self.rows
    }

    /// What holds of a terminal between events. Every line is `cols` wide;
    /// the cursor is on a row of the screen, and in a column of it or, only
    /// while the next character is to wrap, just past the last; the margins
    /// are rows of the screen, the top one above the bottom one wherever
    /// there is more than one row; the tab stops increase and are columns of
    /// the screen; and the last row does not run on.
    pub open spec fn wf(self) -> bool {
        &&& self.wf_open()
        &&& !self.buffer.row(self.rows - 1).wrapped
    }

    /// The character set in use.
    pub open spec fn charset(self) -> Charset {
        if self.active_charset == 0 {
            self.charsets.0
        } else {
            self.charsets.1
        }
    }

    /// The first row that the cursor can be sent to: the top margin in
    /// origin mode, the first row otherwise.
    pub open spec fn actual_top_margin(self) -> int {
        if self.origin_mode {
            self.top_margin
        } else {
            0
        }
    }

    /// The last row that the cursor can be sent to: the bottom margin in
    /// origin mode, the last row otherwise.
    pub open spec fn actual_bottom_margin(self) -> int {
        if self.origin_mode {
            self.bottom_margin
        } else {
            self.rows - 1
        }
    }

    /// With the row `row` marked as changed.
    pub open spec fn mark(self, row: int) -> TerminalModel {
        TerminalModel { dirty: marked(self.dirty, row), ..self }
    }

    /// With the rows from `start` up to, not including, `end` marked as changed.
    pub open spec fn mark_range(self, start: int, end: int) -> TerminalModel {
        TerminalModel { dirty: marked_range(self.dirty, start, end), ..self }
    }

    /// With the cursor in column `col`, and no wrap pending.
    pub open spec fn do_move_cursor_to_col(self, col: int) -> TerminalModel {
        TerminalModel { cursor_col: col, next_print_wraps: false, ..self }
    }

    /// With the cursor in row `row` and within the columns of the screen,
    /// and no wrap pending.
    pub open spec fn do_move_cursor_to_row(self, row: int) -> TerminalModel {
        TerminalModel {
            cursor_col: min(self.cursor_col, self.cols - 1),
            cursor_row: row,
            next_print_wraps: false,
            ..self
        }
    }

    /// With the cursor in the first column.
    pub open spec fn carriage_return(self) -> TerminalModel {
        self.do_move_cursor_to_col(0)
    }

    /// With the cursor in column `col`, or in the last column if `col` is
    /// beyond it.
    #[verifier::opaque]
    pub open spec fn move_cursor_to_col(self, col: int) -> TerminalModel {
        self.do_move_cursor_to_col(min(col, self.cols - 1))
    }

    /// With the cursor `rel_col` columns to the right, or to the left if
    /// that is negative, but no further than the first and last column.
    #[verifier::opaque]
    pub open spec fn move_cursor_to_rel_col(self, rel_col: int) -> TerminalModel {
        self.do_move_cursor_to_col(max(0, min(self.cursor_col + rel_col, self.cols - 1)))
    }

    /// With the cursor `row` rows below the first row it can be sent to, but
    /// no further than the last such row.
    #[verifier::opaque]
    pub open spec fn move_cursor_to_row(self, row: int) -> TerminalModel {
        self.do_move_cursor_to_row(
            min(self.actual_top_margin() + row, self.actual_bottom_margin()),
        )
    }

    /// With the cursor in the first column of the first row it can be sent to.
    #[verifier::opaque]
    pub open spec fn move_cursor_home(self) -> TerminalModel {
        self.carriage_return().do_move_cursor_to_row(self.actual_top_margin())
    }

    /// With the cursor `n` rows down: no further than the bottom margin if
    /// it is on or above it, and no further than the last row otherwise.
    #[verifier::opaque]
    pub open spec fn cursor_down(self, n: int) -> TerminalModel {
        self.do_move_cursor_to_row(
            if self.cursor_row > self.bottom_margin {
                min(self.rows - 1, self.cursor_row + n)
            } else {
                min(self.bottom_margin, self.cursor_row + n)
            },
        )
    }

    /// With the cursor `n` rows up: no further than the top margin if it is
    /// on or below it, and no further than the first row otherwise.
    #[verifier::opaque]
    pub open spec fn cursor_up(self, n: int) -> TerminalModel {
        self.do_move_cursor_to_row(
            if self.cursor_row < self.top_margin {
                max(self.cursor_row - n, 0)
            } else {
                max(self.cursor_row - n, self.top_margin)
            },
        )
    }

    /// With the rows between the margins scrolled up by `n`, and marked as changed.
    #[verifier::opaque]
    pub open spec fn scroll_up_in_region(self, n: int) -> TerminalModel {
        TerminalModel {
            buffer: self.buffer.scroll_up(self.top_margin, self.bottom_margin + 1, n, self.pen),
            ..self
        }.mark_range(self.top_margin, self.bottom_margin + 1)
    }

    /// With the rows between the margins scrolled down by `n`, and marked as changed.
    #[verifier::opaque]
    pub open spec fn scroll_down_in_region(self, n: int) -> TerminalModel {
        TerminalModel {
            buffer: self.buffer.scroll_down(self.top_margin, self.bottom_margin + 1, n, self.pen),
            ..self
        }.mark_range(self.top_margin, self.bottom_margin + 1)
    }

    /// After a line feed: on the bottom margin the rows between the margins
    /// scroll up by one, elsewhere the cursor moves down unless it is on the
    /// last row; in new-line mode the cursor also returns to the first column.
    #[verifier::opaque]
    pub open spec fn linefeed(self) -> TerminalModel {
        let fed = if self.cursor_row == self.bottom_margin {
            self.scroll_up_in_region(1)
        } else if self.cursor_row < self.rows - 1 {
            self.do_move_cursor_to_row(self.cursor_row + 1)
        } else {
            self
        };
        if fed.new_line_mode {
            fed.carriage_return()
        } else {
            fed
        }
    }

    /// After a reverse index: on the top margin the rows between the margins
    /// scroll down by one, elsewhere the cursor moves up unless it is on the
    /// first row.
    #[verifier::opaque]
    pub open spec fn reverse_index(self) -> TerminalModel {
        if self.cursor_row == self.top_margin {
            self.scroll_down_in_region(1)
        } else if self.cursor_row > 0 {
            self.do_move_cursor_to_row(self.cursor_row - 1)
        } else {
            self
        }
    }

    /// With a tab stop at the cursor, unless it is in the first column or
    /// past the last.
    #[verifier::opaque]
    pub open spec fn set_tab(self) -> TerminalModel {
        if 0 < self.cursor_col < self.cols {
            TerminalModel { tabs: with_stop(self.tabs, self.cursor_col as usize), ..self }
        } else {
            self
        }
    }

    /// Without a tab stop at the cursor.
    #[verifier::opaque]
    pub open spec fn clear_tab(self) -> TerminalModel {
        TerminalModel { tabs: without_stop(self.tabs, self.cursor_col as usize), ..self }
    }

    /// Without any tab stop.
    #[verifier::opaque]
    pub open spec fn clear_all_tabs(self) -> TerminalModel {
        TerminalModel { tabs: Seq::empty(), ..self }
    }

    /// With the cursor at the `n`-th tab stop after it, or in the last
    /// column if there are fewer.
    #[verifier::opaque]
    pub open spec fn move_cursor_to_next_tab(self, n: int) -> TerminalModel {
        self.move_cursor_to_col(
            match stop_after(self.tabs, self.cursor_col as usize, n as usize) {
                Some(tab) => tab as int,
                None => self.cols - 1,
            },
        )
    }

    /// With the cursor at the `n`-th tab stop before it, or in the first
    /// column if there are fewer.
    #[verifier::opaque]
    pub open spec fn move_cursor_to_prev_tab(self, n: int) -> TerminalModel {
        self.move_cursor_to_col(
            match stop_before(self.tabs, self.cursor_col as usize, n as usize) {
                Some(tab) => tab as int,
                None => 0,
            },
        )
    }

    /// With the cursor, the pen and the origin and wrap modes saved. A
    /// cursor past the last column is saved in the last column.
    #[verifier::opaque]
    pub open spec fn save_cursor(self) -> TerminalModel {
        TerminalModel {
            saved_ctx: SavedModel {
                cursor_col: min(self.cursor_col, self.cols - 1),
                cursor_row: self.cursor_row,
                pen: self.pen,
                origin_mode: self.origin_mode,
                auto_wrap_mode: self.auto_wrap_mode,
            },
            ..self
        }
    }

    /// With the cursor, the pen and the origin and wrap modes as they were
    /// last saved, and no wrap pending.
    #[verifier::opaque]
    pub open spec fn restore_cursor(self) -> TerminalModel {
        TerminalModel {
            cursor_col: self.saved_ctx.cursor_col,
            cursor_row: self.saved_ctx.cursor_row,
            pen: self.saved_ctx.pen,
            origin_mode: self.saved_ctx.origin_mode,
            auto_wrap_mode: self.saved_ctx.auto_wrap_mode,
            next_print_wraps: false,
            ..self
        }
    }

    /// After a switch to the alternate buffer, with the cursor saved first
    /// if `save_cursor` says so. From the primary buffer the two buffers and
    /// the two saved contexts change places, the buffer on screen becomes
    /// blank in the pen, and every row is marked as changed; on the
    /// alternate buffer nothing else happens.
    #[verifier::opaque]
    pub open spec fn switch_to_alternate_buffer(self, save_cursor: bool) -> TerminalModel {
        let saved = if save_cursor {
            self.save_cursor()
        } else {
            self
        };
        if saved.active_buffer_type == BufferType::Primary {
            TerminalModel {
                active_buffer_type: BufferType::Alternate,
                saved_ctx: saved.alternate_saved_ctx,
                alternate_saved_ctx: saved.saved_ctx,
                buffer: BufferModel::blank(saved.cols as nat, saved.rows as nat, saved.pen),
                other_buffer: saved.buffer,
                dirty: all_dirty(saved.rows as nat),
                ..saved
            }
        } else {
            saved
        }
    }

    /// After a switch to the primary buffer, with the cursor restored
    /// afterwards if `restore_cursor` says so. From the alternate buffer the
    /// two buffers and the two saved contexts change places and every row is
    /// marked as changed; on the primary buffer nothing else happens.
    #[verifier::opaque]
    pub open spec fn switch_to_primary_buffer(self, restore_cursor: bool) -> TerminalModel {
        let switched = if self.active_buffer_type == BufferType::Alternate {
            TerminalModel {
                active_buffer_type: BufferType::Primary,
                saved_ctx: self.alternate_saved_ctx,
                alternate_saved_ctx: self.saved_ctx,
                buffer: self.other_buffer,
                other_buffer: self.buffer,
                dirty: all_dirty(self.rows as nat),
                ..self
            }
        } else {
            self
        };
        if restore_cursor {
            switched.restore_cursor()
        } else {
            switched
        }
    }

    /// After a soft reset: the cursor is shown, the margins are the first
    /// and last row, insert and origin mode are off, the pen is the default
    /// pen, both character sets are ASCII with the first in use, and nothing
    /// is saved.
    #[verifier::opaque]
    pub open spec fn soft_reset(self) -> TerminalModel {
        TerminalModel {
            cursor_visible: true,
            pen: Pen::default_pen(),
            charsets: (Charset::Ascii, Charset::Ascii),
            active_charset: 0,
            insert_mode: false,
            origin_mode: false,
            top_margin: 0,
            bottom_margin: self.rows - 1,
            saved_ctx: SavedModel::initial(),
            ..self
        }
    }

    /// After a hard reset: a terminal of the same size before any input,
    /// with every row marked as changed.
    #[verifier::opaque]
    pub open spec fn hard_reset(self) -> TerminalModel {
        TerminalModel {
            dirty: all_dirty(self.rows as nat),
            ..TerminalModel::new(self.cols, self.rows)
        }
    }

    /// The rows that an erase of the given kind changes, as the first of
    /// them and the one after the last.
    pub open spec fn erased_rows(self, mode: EraseMode) -> (int, int) {
        match mode {
            EraseMode::FromCursorToEndOfView => (self.cursor_row, self.rows),
            EraseMode::FromStartOfViewToCursor => (0, self.cursor_row + 1),
            EraseMode::WholeView => (0, self.rows),
            _ => (self.cursor_row, self.cursor_row + 1),
        }
    }

    /// After an erase of the given kind at the cursor, in the pen; the rows
    /// it reaches are marked as changed.
    #[verifier::opaque]
    pub open spec fn erase(self, mode: EraseMode) -> TerminalModel {
        TerminalModel {
            buffer: self.buffer.erase(self.cursor_col, self.cursor_row, mode, self.pen),
            ..self
        }.mark_range(self.erased_rows(mode).0, self.erased_rows(mode).1)
    }

    /// After `n` blanks of the pen are inserted at the cursor.
    #[verifier::opaque]
    pub open spec fn insert_blanks(self, n: int) -> TerminalModel {
        TerminalModel {
            buffer: self.buffer.insert(
                self.cursor_col,
                self.cursor_row,
                n,
                Cell::blank_of(self.pen),
            ),
            ..self
        }.mark(self.cursor_row)
    }

    /// After `n` characters are deleted at the cursor, which first comes
    /// back to the last column if it is past it.
    #[verifier::opaque]
    pub open spec fn delete_chars(self, n: int) -> TerminalModel {
        let at = if self.cursor_col >= self.cols {
            self.move_cursor_to_col(self.cols - 1)
        } else {
            self
        };
        TerminalModel {
            buffer: at.buffer.delete(at.cursor_col, at.cursor_row, n, at.pen),
            ..at
        }.mark(at.cursor_row)
    }

    /// The rows that inserting or deleting lines at the cursor moves, as the
    /// first of them and the one after the last: from the cursor to the
    /// bottom margin, or to the last row if the cursor is below the margin.
    pub open spec fn lines_below(self) -> (int, int) {
        if self.cursor_row <= self.bottom_margin {
            (self.cursor_row, self.bottom_margin + 1)
        } else {
            (self.cursor_row, self.rows)
        }
    }

    /// After `n` blank lines are inserted at the cursor.
    #[verifier::opaque]
    pub open spec fn insert_lines(self, n: int) -> TerminalModel {
        let (start, end) = self.lines_below();
        TerminalModel {
            buffer: self.buffer.scroll_down(start, end, n, self.pen),
            ..self
        }.mark_range(start, end)
    }

    /// After `n` lines are deleted at the cursor.
    #[verifier::opaque]
    pub open spec fn delete_lines(self, n: int) -> TerminalModel {
        let (start, end) = self.lines_below();
        TerminalModel {
            buffer: self.buffer.scroll_up(start, end, n, self.pen),
            ..self
        }.mark_range(start, end)
    }

    /// With the margins at the rows that the parameters name, counted from
    /// one, if the first is above the second and both are on the screen; a
    /// missing first parameter names the first row and a missing second one
    /// the last. In every case the cursor goes home.
    #[verifier::opaque]
    pub open spec fn set_margins(self, params: Seq<u16>) -> TerminalModel {
        let top = param(params, 0, 1) - 1;
        let bottom = param(params, 1, self.rows) - 1;
        let set = if top < bottom && bottom < self.rows {
            TerminalModel { top_margin: top, bottom_margin: bottom, ..self }
        } else {
            self
        };
        set.move_cursor_home()
    }

    /// After the pending wrap is carried out: the cursor returns to the
    /// first column; on the bottom margin the row is marked as running on
    /// and the rows between the margins scroll up by one; elsewhere, unless
    /// the cursor is on the last row, the row is marked as running on and
    /// the cursor moves down.
    #[verifier::opaque]
    pub open spec fn wrap_line(self) -> TerminalModel {
        let back = self.carriage_return();
        if back.cursor_row == back.bottom_margin {
            TerminalModel {
                buffer: back.buffer.wrap(back.cursor_row),
                ..back
            }.scroll_up_in_region(1)
        } else if back.cursor_row < back.rows - 1 {
            TerminalModel {
                buffer: back.buffer.wrap(back.cursor_row),
                ..back
            }.do_move_cursor_to_row(back.cursor_row + 1)
        } else {
            back
        }
    }

    /// After `cell` is put at the cursor. In the last column, or past it, it
    /// goes into the last column, and with automatic wrapping on the cursor
    /// then stands past it with a wrap pending. Elsewhere it is inserted in
    /// insert mode and overwrites otherwise, and the cursor moves right. The
    /// row of the cursor is marked as changed.
    pub open spec fn put(self, cell: Cell) -> TerminalModel {
        if self.cursor_col + 1 >= self.cols {
            TerminalModel {
                buffer: self.buffer.print(self.cols - 1, self.cursor_row, cell),
                cursor_col: if self.auto_wrap_mode {
                    self.cols
                } else {
                    self.cursor_col
                },
                next_print_wraps: self.auto_wrap_mode || self.next_print_wraps,
                ..self
            }.mark(self.cursor_row)
        } else {
            TerminalModel {
                buffer: if self.insert_mode {
                    self.buffer.insert(self.cursor_col, self.cursor_row, 1, cell)
                } else {
                    self.buffer.print(self.cursor_col, self.cursor_row, cell)
                },
                cursor_col: self.cursor_col + 1,
                next_print_wraps: false,
                ..self
            }.mark(self.cursor_row)
        }
    }

    /// After the character `input` is printed in the character set in use
    /// and with the pen. A pending wrap is carried out first if automatic
    /// wrapping is on; then the character is put at the cursor.
    #[verifier::opaque]
    pub open spec fn print(self, input: char) -> TerminalModel {
        let cell = Cell { ch: self.charset().translated(input), pen: self.pen };
        if self.auto_wrap_mode && self.next_print_wraps {
            self.wrap_line().put(cell)
        } else {
            self.put(cell)
        }
    }

    /// After the character `input` is printed `n` times.
    pub open spec fn print_times(self, input: char, n: int) -> TerminalModel
        decreases n,
    {
        if n <= 0 {
            self
        } else {
            self.print_times(input, n - 1).print(input)
        }
    }

    /// After the character to the left of the cursor is printed `n` times
    /// more; nothing happens in the first column.
    #[verifier::opaque]
    pub open spec fn repeat(self, n: int) -> TerminalModel {
        if self.cursor_col > 0 {
            self.print_times(
                self.buffer.row(self.cursor_row).cells[self.cursor_col - 1].ch,
                n,
            )
        } else {
            self
        }
    }

    /// After the control character `input` is carried out: backspace, tab,
    /// line feed, vertical tab and form feed, carriage return, shift out and
    /// shift in, and of the C1 controls index, next line, tab set and
    /// reverse index. Every other character changes nothing.
    #[verifier::opaque]
    pub open spec fn execute(self, input: char) -> TerminalModel {
        if input == '\u{08}' {
            self.move_cursor_to_rel_col(
                if self.next_print_wraps {
                    -2
                } else {
                    -1
                },
            )
        } else if input == '\u{09}' {
            self.move_cursor_to_next_tab(1)
        } else if input == '\u{0a}' || input == '\u{0b}' || input == '\u{0c}' || input
            == '\u{84}' {
            self.linefeed()
        } else if input == '\u{0d}' {
            self.carriage_return()
        } else if input == '\u{0e}' {
            self.with_active_charset(1)
        } else if input == '\u{0f}' {
            self.with_active_charset(0)
        } else if input == '\u{85}' {
            self.linefeed().carriage_return()
        } else if input == '\u{88}' {
            self.set_tab()
        } else if input == '\u{8d}' {
            self.reverse_index()
        } else {
            self
        }
    }

    /// With insert mode as given.
    pub open spec fn with_insert_mode(self, on: bool) -> TerminalModel {
        TerminalModel { insert_mode: on, ..self }
    }

    /// With new-line mode as given.
    pub open spec fn with_new_line_mode(self, on: bool) -> TerminalModel {
        TerminalModel { new_line_mode: on, ..self }
    }

    /// With origin mode as given.
    pub open spec fn with_origin_mode(self, on: bool) -> TerminalModel {
        TerminalModel { origin_mode: on, ..self }
    }

    /// With automatic wrapping as given.
    pub open spec fn with_auto_wrap_mode(self, on: bool) -> TerminalModel {
        TerminalModel { auto_wrap_mode: on, ..self }
    }

    /// With the cursor shown or hidden.
    pub open spec fn with_cursor_visible(self, on: bool) -> TerminalModel {
        TerminalModel { cursor_visible: on, ..self }
    }

    /// With the character set of the slot `slot` in use.
    pub open spec fn with_active_charset(self, slot: int) -> TerminalModel {
        TerminalModel { active_charset: slot, ..self }
    }

    /// After one mode is switched on or off. Of the modes without a prefix,
    /// 4 is insert mode and 20 new-line mode. Of the private ones, 6 is
    /// origin mode, which also sends the cursor home, 7 automatic wrapping,
    /// 25 the visibility of the cursor, 47 and 1047 the alternate buffer,
    /// 1048 saving or restoring the cursor, and 1049 both of these together.
    #[verifier::opaque]
    pub open spec fn switch_mode(self, private: bool, on: bool, mode: u16) -> TerminalModel {
        if !private {
            if mode == 4 {
                self.with_insert_mode(on)
            } else if mode == 20 {
                self.with_new_line_mode(on)
            } else {
                self
            }
        } else if mode == 6 {
            self.with_origin_mode(on).move_cursor_home()
        } else if mode == 7 {
            self.with_auto_wrap_mode(on)
        } else if mode == 25 {
            self.with_cursor_visible(on)
        } else if mode == 47 || mode == 1047 {
            if on {
                self.switch_to_alternate_buffer(false)
            } else {
                self.switch_to_primary_buffer(false)
            }
        } else if mode == 1048 {
            if on {
                self.save_cursor()
            } else {
                self.restore_cursor()
            }
        } else if mode == 1049 {
            if on {
                self.switch_to_alternate_buffer(true)
            } else {
                self.switch_to_primary_buffer(true)
            }
        } else {
            self
        }
    }

    /// After the modes that the parameters name are switched, one after the other.
    pub open spec fn switch_modes(self, private: bool, on: bool, modes: Seq<u16>) -> TerminalModel
        decreases modes.len(),
    {
        if modes.len() == 0 {
            self
        } else {
            self.switch_modes(private, on, modes.drop_last()).switch_mode(
                private,
                on,
                modes.last(),
            )
        }
    }

    /// After a control sequence without intermediates.
    #[verifier::opaque]
    pub open spec fn csi_plain(self, input: char, params: Seq<u16>) -> TerminalModel {
        let n = param(params, 0, 1);
        let kind = param(params, 0, 0);
        if input == '@' {
            self.insert_blanks(n)
        } else if input == 'A' {
            self.cursor_up(n)
        } else if input == 'B' || input == 'e' {
            self.cursor_down(n)
        } else if input == 'b' {
            self.repeat(n)
        } else if input == 'C' || input == 'a' {
            self.move_cursor_to_rel_col(n)
        } else if input == 'D' {
            self.move_cursor_to_rel_col(
                if self.next_print_wraps {
                    -n - 1
                } else {
                    -n
                },
            )
        } else if input == 'd' {
            self.move_cursor_to_row(n - 1)
        } else if input == 'E' {
            self.cursor_down(n).carriage_return()
        } else if input == 'F' {
            self.cursor_up(n).carriage_return()
        } else if input == 'G' || input == '`' {
            self.move_cursor_to_col(n - 1)
        } else if input == 'g' {
            if kind == 0 {
                self.clear_tab()
            } else if kind == 3 {
                self.clear_all_tabs()
            } else {
                self
            }
        } else if input == 'H' || input == 'f' {
            self.move_cursor_to_col(param(params, 1, 1) - 1).move_cursor_to_row(n - 1)
        } else if input == 'h' {
            self.switch_modes(false, true, params)
        } else if input == 'l' {
            self.switch_modes(false, false, params)
        } else if input == 'I' {
            self.move_cursor_to_next_tab(n)
        } else if input == 'J' {
            if kind == 0 {
                self.erase(EraseMode::FromCursorToEndOfView)
            } else if kind == 1 {
                self.erase(EraseMode::FromStartOfViewToCursor)
            } else if kind == 2 {
                self.erase(EraseMode::WholeView)
            } else {
                self
            }
        } else if input == 'K' {
            if kind == 0 {
                self.erase(EraseMode::FromCursorToEndOfLine)
            } else if kind == 1 {
                self.erase(EraseMode::FromStartOfLineToCursor)
            } else if kind == 2 {
                self.erase(EraseMode::WholeLine)
            } else {
                self
            }
        } else if input == 'L' {
            self.insert_lines(n)
        } else if input == 'M' {
            self.delete_lines(n)
        } else if input == 'm' {
            TerminalModel { pen: sgr(self.pen, params, 0), ..self }
        } else if input == 'P' {
            self.delete_chars(n)
        } else if input == 'r' {
            self.set_margins(params)
        } else if input == 'S' {
            self.scroll_up_in_region(n)
        } else if input == 's' {
            self.save_cursor()
        } else if input == 'T' {
            self.scroll_down_in_region(n)
        } else if input == 'u' {
            self.restore_cursor()
        } else if input == 'W' {
            if kind == 0 {
                self.set_tab()
            } else if kind == 2 {
                self.clear_tab()
            } else if kind == 5 {
                self.clear_all_tabs()
            } else {
                self
            }
        } else if input == 'X' {
            self.erase(EraseMode::NextChars(n as usize))
        } else if input == 'Z' {
            self.move_cursor_to_prev_tab(n)
        } else {
            self
        }
    }

    /// After a control sequence. With the intermediate `?`, `h` and `l`
    /// switch private modes; with `!`, `p` is a soft reset; every other
    /// sequence with intermediates changes nothing.
    #[verifier::opaque]
    pub open spec fn csi_dispatch(
        self,
        input: char,
        interims: Seq<char>,
        params: Seq<u16>,
    ) -> TerminalModel {
        if interims.len() == 0 {
            self.csi_plain(input, params)
        } else if interims.len() == 1 && interims[0] == '?' && input == 'h' {
            self.switch_modes(true, true, params)
        } else if interims.len() == 1 && interims[0] == '?' && input == 'l' {
            self.switch_modes(true, false, params)
        } else if interims.len() == 1 && interims[0] == '!' && input == 'p' {
            self.soft_reset()
        } else {
            self
        }
    }

    /// After a screen alignment test: every position of the screen holds an
    /// `E` in the default pen, and every row is marked as changed.
    #[verifier::opaque]
    pub open spec fn align(self) -> TerminalModel {
        TerminalModel {
            buffer: self.buffer.fill(Cell { ch: 'E', pen: Pen::default_pen() }),
            dirty: all_dirty(self.rows as nat),
            ..self
        }
    }

    /// With the character set of the slot `slot` as given.
    pub open spec fn with_charset(self, slot: int, charset: Charset) -> TerminalModel {
        if slot == 0 {
            TerminalModel { charsets: (charset, self.charsets.1), ..self }
        } else {
            TerminalModel { charsets: (self.charsets.0, charset), ..self }
        }
    }

    /// After an escape sequence. Without intermediates, a final character
    /// from `@` to `_` stands for the C1 control 64 code points above it,
    /// `7` and `8` save and restore the cursor, and `c` is a hard reset.
    /// `#` with `8` is the screen alignment test. `(` and `)` choose the
    /// character set of the first and second slot: line drawing at `0`,
    /// ASCII at anything else. Every other sequence changes nothing.
    #[verifier::opaque]
    pub open spec fn esc_dispatch(self, input: char, interims: Seq<char>) -> TerminalModel {
        if interims.len() == 0 {
            if '@' <= input <= '_' {
                self.execute((input as u32 + 0x40) as char)
            } else if input == '7' {
                self.save_cursor()
            } else if input == '8' {
                self.restore_cursor()
            } else if input == 'c' {
                self.hard_reset()
            } else {
                self
            }
        } else if interims.len() == 1 && interims[0] == '#' && input == '8' {
            self.align()
        } else if interims.len() == 1 && interims[0] == '(' {
            self.with_charset(
                0,
                if input == '0' {
                    Charset::Drawing
                } else {
                    Charset::Ascii
                },
            )
        } else if interims.len() == 1 && interims[0] == ')' {
            self.with_charset(
                1,
                if input == '0' {
                    Charset::Drawing
                } else {
                    Charset::Ascii
                },
            )
        } else {
            self
        }
    }

    /// After the screen is made `cols` wide and `rows` high; nothing
    /// happens if it has that size. Both buffers are resized, the one on
    /// screen around the cursor and the other around the place that is saved
    /// for it. The cursor goes where its place in the text has come to lie,
    /// in a column of the screen, with no wrap pending. The tab stops past
    /// the new width are dropped, the margins become the first and last
    /// row, the saved places are kept on the screen, and every row is marked
    /// as changed.
    #[verifier::opaque]
    pub open spec fn resize(self, cols: int, rows: int) -> TerminalModel {
        if cols == self.cols && rows == self.rows {
            self
        } else {
            let shown = self.buffer.resize(
                cols as nat,
                rows as nat,
                (self.cursor_col, self.cursor_row),
            );
            let other = self.other_buffer.resize(
                cols as nat,
                rows as nat,
                (self.alternate_saved_ctx.cursor_col, self.alternate_saved_ctx.cursor_row),
            );
            TerminalModel {
                cols,
                rows,
                buffer: shown.0,
                other_buffer: other.0,
                cursor_col: min(shown.1.0, cols - 1),
                cursor_row: shown.1.1,
                next_print_wraps: false,
                tabs: stops_below(self.tabs, cols as usize),
                top_margin: 0,
                bottom_margin: rows - 1,
                saved_ctx: self.saved_ctx.within(cols, rows),
                alternate_saved_ctx: self.alternate_saved_ctx.within(cols, rows),
                dirty: all_dirty(rows as nat),
                ..self
            }
        }
    }

    /// After one event of the parser.
    pub open spec fn apply(self, event: Event) -> TerminalModel {
        match event {
            Event::Print(input) => self.print(input),
            Event::Execute(input) => self.execute(input),
            Event::CsiDispatch(input, interims, params) => self.csi_dispatch(
                input,
                interims,
                params,
            ),
            Event::EscDispatch(input, interims) => self.esc_dispatch(input, interims),
        }
    }

    /// After the events of the parser, one after the other.
    pub open spec fn apply_all(self, events: Seq<Event>) -> TerminalModel
        decreases events.len(),
    {
        if events.len() == 0 {
            self
        } else {
            self.apply_all(events.drop_last()).apply(events.last())
        }
    }

    /// The two terminals show the same and act the same: they differ at
    /// most in which rows are marked as changed.
    pub open spec fn same_screen(self, other: TerminalModel) -> bool {
        &&& self == (TerminalModel { dirty: self.dirty, ..other })
        &&& self.dirty.len() == other.dirty.len()
    }

    /// With no row marked as changed.
    pub open spec fn drained(self) -> TerminalModel {
        TerminalModel { dirty: clean(self.dirty.len()), ..self }
    }
}

/// Between events every line on the screen has exactly as many cells as the
/// screen has columns.
pub proof fn lemma_lines_span_the_screen(t: TerminalModel)
    requires
        t.wf(),
    ensures
        t.buffer.view().len() == t.rows,
        forall|row: int| 0 <= row < t.rows ==> (#[trigger] t.buffer.view()[row]).cells.len() == t.cols,
{
    assert forall|row: int| 0 <= row < t.rows implies (#[trigger] t.buffer.view()[row]).cells.len()
        == t.cols by {
        assert(t.buffer.view()[row] == t.buffer.lines[t.buffer.scrollback() + row]);
    }
}

/// Between events the cursor is on a row of the screen, and in a column of
/// it or just past the last one; it is past the last one only while the next
/// character is to wrap.
pub proof fn lemma_cursor_is_on_screen(t: TerminalModel)
    requires
        t.wf(),
    ensures
        0 <= t.cursor_row < t.rows,
        0 <= t.cursor_col <= t.cols,
        t.cursor_col == t.cols ==> t.next_print_wraps,
{
}

/// Between events the margins are rows of the screen and the top margin is
/// not below the bottom margin; on a screen of more than one row it is above it.
pub proof fn lemma_margins_are_ordered(t: TerminalModel)
    requires
        t.wf(),
    ensures
        0 <= t.top_margin <= t.bottom_margin < t.rows,
        t.rows > 1 ==> t.top_margin < t.bottom_margin,
{
}

/// Between events the tab stops are strictly increasing columns of the screen.
pub proof fn lemma_tabs_are_increasing_columns(t: TerminalModel)
    requires
        t.wf(),
    ensures
        forall|i: int, j: int| 0 <= i < j < t.tabs.len() ==> t.tabs[i] < t.tabs[j],
        forall|i: int| 0 <= i < t.tabs.len() ==> 0 <= (#[trigger] t.tabs[i]) < t.cols,
{
}

/// Between events the last line on the screen does not run on.
pub proof fn lemma_last_line_does_not_run_on(t: TerminalModel)
    requires
        t.wf(),
    ensures
        !t.buffer.view()[t.rows - 1].wrapped,
{
    assert(t.buffer.view()[t.rows - 1] == t.buffer.row(t.rows - 1));
}

/// A hard reset leaves a terminal that differs from a new one of the same
/// size only in that every row is marked as changed.
pub proof fn lemma_hard_reset_is_a_new_terminal(t: TerminalModel)
    requires
        t.rows >= 0,
    ensures
        t.hard_reset().drained() == TerminalModel::new(t.cols, t.rows),
{
    reveal(TerminalModel::hard_reset);
    assert(t.hard_reset().drained().dirty =~= TerminalModel::new(t.cols, t.rows).dirty);
}

/// Applying one run of events and then another is applying the two joined.
pub proof fn lemma_apply_all_joined(t: TerminalModel, first: Seq<Event>, second: Seq<Event>)
    ensures
        t.apply_all(first + second) == t.apply_all(first).apply_all(second),
    decreases second.len(),
{
    if second.len() == 0 {
        assert(first + second =~= first);
    } else {
        lemma_apply_all_joined(t, first, second.drop_last());
        assert((first + second).drop_last() =~= first + second.drop_last());
        assert((first + second).last() == second.last());
    }
}

/// Applying a single event.
pub proof fn lemma_apply_all_one(t: TerminalModel, event: Event)
    ensures
        t.apply_all(seq![event]) == t.apply(event),
{
    let events = seq![event];
    assert(events.drop_last() =~= Seq::<Event>::empty());
    assert(events.last() == event);
    assert(t.apply_all(events.drop_last()) == t);
}

/// A change of width alone keeps the text on the screen and above it: the
/// logical lines are the same as before, up to default cells at their ends,
/// followed by one empty line for each blank line that fills the screen.
/// This is so wherever the cursor stays on the screen without lines being
/// dropped below it.
pub proof fn lemma_resize_width_keeps_text(t: TerminalModel, cols: int)
    requires
        t.wf(),
        cols >= 1,
        cols != t.cols,
        t.buffer.resize_cols(cols as nat, (t.cursor_col, t.cursor_row)).0.rows == t.rows,
    ensures
        logical_text(t.resize(cols, t.rows).buffer.lines) == logical_text(t.buffer.lines)
            + empty_lines(t.buffer.room(cols as nat)),
{
    reveal(TerminalModel::resize);
    crate::buffer::lemma_resize_width_keeps_text(
        t.buffer,
        cols as nat,
        (t.cursor_col, t.cursor_row),
    );
}

/// The buffer that holds the primary screen, whichever buffer is shown.
pub open spec fn primary_buffer(t: TerminalModel) -> BufferModel {
    if t.active_buffer_type == BufferType::Primary {
        t.buffer
    } else {
        t.other_buffer
    }
}

/// Switching to the alternate buffer with mode 1049 and back again leaves
/// the primary screen shown, with its contents as they were.
pub proof fn lemma_alternate_round_trip(t: TerminalModel)
    ensures
        ({
            let there = t.csi_dispatch('h', seq!['?'], seq![1049u16]);
            let back = there.csi_dispatch('l', seq!['?'], seq![1049u16]);
            &&& back.active_buffer_type == BufferType::Primary
            &&& back.buffer == primary_buffer(t)
        }),
{
    reveal(TerminalModel::csi_dispatch);
    reveal(TerminalModel::switch_mode);
    reveal(TerminalModel::switch_to_alternate_buffer);
    reveal(TerminalModel::switch_to_primary_buffer);
    reveal(TerminalModel::save_cursor);
    reveal(TerminalModel::restore_cursor);
    let modes = seq![1049u16];
    assert(modes.drop_last() =~= Seq::<u16>::empty());
    assert(modes.last() == 1049u16);
    assert(t.switch_modes(true, true, modes.drop_last()) == t);
    let there = t.csi_dispatch('h', seq!['?'], modes);
    assert(there == t.switch_mode(true, true, 1049));
    assert(there.switch_modes(true, false, modes.drop_last()) == there);
    let back = there.csi_dispatch('l', seq!['?'], modes);
    assert(back == there.switch_mode(true, false, 1049));
}

} // verus!
