use crate::buffer::{Buffer, EraseMode};
use crate::cell::Cell;
use crate::charset::Charset;
use crate::color::{channel, Color, Rgb};
use crate::cursor::Cursor;
use crate::dirty_lines::{lists_marked, DirtyLines};
use crate::line::Line;
use crate::parser::{handles_all, Emulator, Event};
use crate::pen::{Intensity, Pen};
use crate::tabs::Tabs;
use crate::terminal_model::{
    param, sgr, sgr_color, sgr_color_width, sgr_simple, BufferType, SavedModel, TerminalModel,
};
use vstd::prelude::*;

verus! {

/// What saving the cursor keeps.
#[derive(Debug, Clone, Copy)]
pub struct SavedCtx {
    pub cursor_col: usize,
    pub cursor_row: usize,
    pub pen: Pen,
    pub origin_mode: bool,
    pub auto_wrap_mode: bool,
}

impl View for SavedCtx {
    type V = SavedModel;

    open spec fn view(&self) -> SavedModel {
        SavedModel {
            cursor_col: self.cursor_col as int,
            cursor_row: self.cursor_row as int,
            pen: self.pen,
            origin_mode: self.origin_mode,
            auto_wrap_mode: self.auto_wrap_mode,
        }
    }
}

impl Default for SavedCtx {
    fn default() -> (r: Self)
        ensures
            r@ == SavedModel::initial(),
    {
        SavedCtx {
            cursor_col: 0,
            cursor_row: 0,
            pen: Pen::default(),
            origin_mode: false,
            auto_wrap_mode: true,
        }
    }
}

impl SavedCtx {
    /// What is kept, with the place no further right or down than a screen
    /// of the given size reaches.
    fn within(self, cols: usize, rows: usize) -> (r: SavedCtx)
        requires
            cols >= 1,
            rows >= 1,
        ensures
            r@ == self@.within(cols as int, rows as int),
    {
        SavedCtx {
            cursor_col: if self.cursor_col < cols - 1 {
                self.cursor_col
            } else {
                cols - 1
            },
            cursor_row: if self.cursor_row < rows - 1 {
                self.cursor_row
            } else {
                rows - 1
            },
            pen: self.pen,
            origin_mode: self.origin_mode,
            auto_wrap_mode: self.auto_wrap_mode,
        }
    }
}

/// The screen of a terminal and all that decides how it acts on the events
/// of the parser.
#[derive(Debug)]
pub struct Terminal {
    cols: usize,
    rows: usize,
    buffer: Buffer,
    other_buffer: Buffer,
    active_buffer_type: BufferType,
    cursor: Cursor,
    pen: Pen,
    charsets: [Charset; 2],
    active_charset: usize,
    tabs: Tabs,
    insert_mode: bool,
    origin_mode: bool,
    auto_wrap_mode: bool,
    new_line_mode: bool,
    next_print_wraps: bool,
    top_margin: usize,
    bottom_margin: usize,
    saved_ctx: SavedCtx,
    alternate_saved_ctx: SavedCtx,
    dirty_lines: DirtyLines,
}

impl Terminal {
    /// The value of this terminal.
    pub closed spec fn model(&self) -> TerminalModel {
        TerminalModel {
            cols: self.cols as int,
            rows: self.rows as int,
            buffer: self.buffer.model(),
            other_buffer: self.other_buffer.model(),
            active_buffer_type: self.active_buffer_type,
            cursor_col: self.cursor.col as int,
            cursor_row: self.cursor.row as int,
            cursor_visible: self.cursor.visible,
            pen: self.pen,
            charsets: (self.charsets[0], self.charsets[1]),
            active_charset: self.active_charset as int,
            tabs: self.tabs@,
            insert_mode: self.insert_mode,
            origin_mode: self.origin_mode,
            auto_wrap_mode: self.auto_wrap_mode,
            new_line_mode: self.new_line_mode,
            next_print_wraps: self.next_print_wraps,
            top_margin: self.top_margin as int,
            bottom_margin: self.bottom_margin as int,
            saved_ctx: self.saved_ctx@,
            alternate_saved_ctx: self.alternate_saved_ctx@,
            dirty: self.dirty_lines@,
        }
    }

    /// What holds of a terminal between events.
    pub open spec fn wf(&self) -> bool {
        self.model().wf()
    }

    pub fn new(size: (usize, usize)) -> (r: Self)
        requires
            size.0 >= 1,
            size.1 >= 1,
        ensures
            r.wf(),
            r.model() == TerminalModel::new(size.0 as int, size.1 as int),
    {
        let (cols, rows) = size;
        let r = Terminal {
            cols,
            rows,
            buffer: Buffer::new(cols, rows, Pen::default()),
            other_buffer: Buffer::new(cols, rows, Pen::default()),
            active_buffer_type: BufferType::Primary,
            cursor: Cursor::default(),
            pen: Pen::default(),
            charsets: [Charset::Ascii, Charset::Ascii],
            active_charset: 0,
            tabs: Tabs::new(cols),
            insert_mode: false,
            origin_mode: false,
            auto_wrap_mode: true,
            new_line_mode: false,
            next_print_wraps: false,
            top_margin: 0,
            bottom_margin: rows - 1,
            saved_ctx: SavedCtx::default(),
            alternate_saved_ctx: SavedCtx::default(),
            dirty_lines: DirtyLines::new(rows),
        };
        r
    }

    /// The rows that have changed since they were last asked for, in
    /// increasing order.
    pub fn changes(&mut self) -> (rows: Vec<usize>)
        requires
            old(self).wf(),
        ensures
            final(self).wf(),
            final(self).model() == old(self).model().drained(),
            lists_marked(rows@, old(self).model().dirty, old(self).model().rows),
    {
        self.dirty_lines.drain()
    }

    /// Makes the screen `cols` wide and `rows` high.
    pub fn resize(&mut self, cols: usize, rows: usize)
        requires
            old(self).wf(),
            cols >= 1,
            rows >= 1,
        ensures
            final(self).wf(),
            final(self).model() == old(self).model().resize(cols as int, rows as int),
    {
        proof {
            reveal(TerminalModel::resize);
        }
        if cols != self.cols || rows != self.rows {
            let shown = self.buffer.resize(cols, rows, self.cursor.position());
            let saved = (self.alternate_saved_ctx.cursor_col, self.alternate_saved_ctx.cursor_row);
            self.other_buffer.resize(cols, rows, saved);
            self.tabs.contract(cols);
            self.dirty_lines.resize(rows);
            self.dirty_lines.extend(0..rows);
            assert(self.dirty_lines@ =~= crate::dirty_lines::all_dirty(rows as nat));
            self.place(cols, rows, shown);
        }
    }

    /// Takes the new size, puts the cursor at `cursor`, within the columns
    /// of the screen, and keeps the margins and the saved places on the screen.
    fn place(&mut self, cols: usize, rows: usize, cursor: (usize, usize))
        requires
            cols >= 1,
            rows >= 1,
        ensures
            final(self).model() == (TerminalModel {
                cols: cols as int,
                rows: rows as int,
                cursor_col: crate::buffer::min(cursor.0 as int, cols - 1),
                cursor_row: cursor.1 as int,
                next_print_wraps: false,
                top_margin: 0,
                bottom_margin: rows - 1,
                saved_ctx: old(self).model().saved_ctx.within(cols as int, rows as int),
                alternate_saved_ctx: old(self).model().alternate_saved_ctx.within(
                    cols as int,
                    rows as int,
                ),
                ..old(self).model()
            }),
    {
        self.cols = cols;
        self.rows = rows;
        let col = if cursor.0 < cols - 1 {
            cursor.0
        } else {
            cols - 1
        };
        self.cursor.col = col;
        self.cursor.row = cursor.1;
        self.next_print_wraps = false;
        self.top_margin = 0;
        self.bottom_margin = rows - 1;
        self.saved_ctx = self.saved_ctx.within(cols, rows);
        self.alternate_saved_ctx = self.alternate_saved_ctx.within(cols, rows);
    }

    pub fn cursor(&self) -> (r: Option<(usize, usize)>)
        ensures
            r == (if self.model().cursor_visible {
                Some((self.model().cursor_col as usize, self.model().cursor_row as usize))
            } else {
                None
            }),
            self.wf() ==> match r {
                Some((col, row)) => col <= self.model().cols && row < self.model().rows,
                None => true,
            },
    {
        self.cursor.shown_position()
    }

    pub fn view(&self) -> (r: &[Line])
        requires
            self.wf(),
        ensures
            r@.len() == self.model().rows,
            forall|i: int| 0 <= i < r@.len() ==> (#[trigger] r@[i])@ == self.model().buffer.row(i),
            forall|i: int| 0 <= i < r@.len() ==> (#[trigger] r@[i])@.width() == self.model().cols,
            !r@[r@.len() - 1]@.wrapped,
    {
        self.buffer.view()
    }
}

impl Terminal {
    fn erase(&mut self, mode: EraseMode)
        requires
            old(self).wf(),
        ensures
            final(self).wf(),
            final(self).model() == old(self).model().erase(mode),
    {
        proof {
            reveal(TerminalModel::erase);
        }
        let row = self.cursor.row;
        let (start, end) = match mode {
            EraseMode::FromCursorToEndOfView => (row, self.rows),
            EraseMode::FromStartOfViewToCursor => (0, row + 1),
            EraseMode::WholeView => (0, self.rows),
            _ => (row, row + 1),
        };
        self.buffer.erase(self.cursor.position(), mode, &self.pen);
        self.dirty_lines.extend(start..end);
    }

    fn linefeed(&mut self)
        requires
            old(self).wf(),
        ensures
            final(self).wf(),
            final(self).model() == old(self).model().linefeed(),
    {
        proof {
            reveal(TerminalModel::linefeed);
        }
        if self.cursor.row == self.bottom_margin {
            self.scroll_up_in_region(1);
        } else if self.cursor.row < self.rows - 1 {
            self.do_move_cursor_to_row(self.cursor.row + 1);
        }
        if self.new_line_mode {
            self.carriage_return();
        }
    }

    fn reverse_index(&mut self)
        requires
            old(self).wf(),
        ensures
            final(self).wf(),
            final(self).model() == old(self).model().reverse_index(),
    {
        proof {
            reveal(TerminalModel::reverse_index);
        }
        if self.cursor.row == self.top_margin {
            self.scroll_down_in_region(1);
        } else if self.cursor.row > 0 {
            self.do_move_cursor_to_row(self.cursor.row - 1);
        }
    }

    fn carriage_return(&mut self)
        requires
            old(self).wf(),
        ensures
            final(self).wf(),
            final(self).model() == old(self).model().carriage_return(),
    {
        self.do_move_cursor_to_col(0);
    }

    fn move_cursor_home(&mut self)
        requires
            old(self).wf(),
        ensures
            final(self).wf(),
            final(self).model() == old(self).model().move_cursor_home(),
    {
        proof {
            reveal(TerminalModel::move_cursor_home);
        }
        self.carriage_return();
        self.do_move_cursor_to_row(self.actual_top_margin());
    }

    fn move_cursor_to_col(&mut self, col: usize)
        requires
            old(self).wf(),
        ensures
            final(self).wf(),
            final(self).model() == old(self).model().move_cursor_to_col(col as int),
    {
        proof {
            reveal(TerminalModel::move_cursor_to_col);
        }
        if col >= self.cols {
            self.do_move_cursor_to_col(self.cols - 1);
        } else {
            self.do_move_cursor_to_col(col);
        }
    }

    /// Moves the cursor `n` columns to the right, no further than the last column.
    fn move_cursor_right(&mut self, n: usize)
        requires
            old(self).wf(),
        ensures
            final(self).wf(),
            final(self).model() == old(self).model().move_cursor_to_rel_col(n as int),
    {
        proof {
            reveal(TerminalModel::move_cursor_to_rel_col);
        }
        if self.cursor.col >= self.cols - 1 || n >= self.cols - 1 - self.cursor.col {
            self.do_move_cursor_to_col(self.cols - 1);
        } else {
            self.do_move_cursor_to_col(self.cursor.col + n);
        }
    }

    /// Moves the cursor `n` columns to the left, no further than the first column.
    fn move_cursor_left(&mut self, n: usize)
        requires
            old(self).wf(),
            n >= 1,
        ensures
            final(self).wf(),
            final(self).model() == old(self).model().move_cursor_to_rel_col(-(n as int)),
    {
        proof {
            reveal(TerminalModel::move_cursor_to_rel_col);
        }
        if n >= self.cursor.col {
            self.carriage_return();
        } else {
            self.do_move_cursor_to_col(self.cursor.col - n);
        }
    }

    fn move_cursor_to_row(&mut self, row: usize)
        requires
            old(self).wf(),
        ensures
            final(self).wf(),
            final(self).model() == old(self).model().move_cursor_to_row(row as int),
    {
        proof {
            reveal(TerminalModel::move_cursor_to_row);
        }
        let top = self.actual_top_margin();
        let bottom = self.actual_bottom_margin();
        let row = if row >= bottom - top {
            bottom
        } else {
            top + row
        };
        self.do_move_cursor_to_row(row);
    }

    fn cursor_down(&mut self, n: usize)
        requires
            old(self).wf(),
        ensures
            final(self).wf(),
            final(self).model() == old(self).model().cursor_down(n as int),
    {
        proof {
            reveal(TerminalModel::cursor_down);
        }
        let bound = if self.cursor.row > self.bottom_margin {
            self.rows - 1
        } else {
            self.bottom_margin
        };
        let new_y = if n >= bound - self.cursor.row {
            bound
        } else {
            self.cursor.row + n
        };
        self.do_move_cursor_to_row(new_y);
    }

    fn cursor_up(&mut self, n: usize)
        requires
            old(self).wf(),
        ensures
            final(self).wf(),
            final(self).model() == old(self).model().cursor_up(n as int),
    {
        proof {
            reveal(TerminalModel::cursor_up);
        }
        let bound = if self.cursor.row < self.top_margin {
            0
        } else {
            self.top_margin
        };
        let new_y = if n >= self.cursor.row - bound {
            bound
        } else {
            self.cursor.row - n
        };
        self.do_move_cursor_to_row(new_y);
    }

    fn do_move_cursor_to_col(&mut self, col: usize)
        requires
            old(self).wf(),
            col < old(self).model().cols,
        ensures
            final(self).wf(),
            final(self).model() == old(self).model().do_move_cursor_to_col(col as int),
    {
        self.cursor.col = col;
        self.next_print_wraps = false;
    }

    fn do_move_cursor_to_row(&mut self, row: usize)
        requires
            old(self).wf(),
            row < old(self).model().rows,
        ensures
            final(self).wf(),
            final(self).model() == old(self).model().do_move_cursor_to_row(row as int),
    {
        if self.cursor.col > self.cols - 1 {
            self.cursor.col = self.cols - 1;
        }
        self.cursor.row = row;
        self.next_print_wraps = false;
    }

    fn actual_top_margin(&self) -> (r: usize)
        requires
            self.wf(),
        ensures
            r == self.model().actual_top_margin(),
    {
        if self.origin_mode {
            self.top_margin
        } else {
            0
        }
    }

    fn actual_bottom_margin(&self) -> (r: usize)
        requires
            self.wf(),
        ensures
            r == self.model().actual_bottom_margin(),
    {
        if self.origin_mode {
            self.bottom_margin
        } else {
            self.rows - 1
        }
    }

    fn scroll_up_in_region(&mut self, n: usize)
        requires
            old(self).model().wf_open(),
        ensures
            final(self).model().wf_open(),
            old(self).wf() || old(self).model().bottom_margin == old(self).model().rows - 1
                ==> final(self).wf(),
            final(self).model() == old(self).model().scroll_up_in_region(n as int),
    {
        proof {
            reveal(TerminalModel::scroll_up_in_region);
        }
        let range = self.top_margin..self.bottom_margin + 1;
        self.buffer.scroll_up(range, n, &self.pen);
        self.dirty_lines.extend(self.top_margin..self.bottom_margin + 1);
    }

    fn scroll_down_in_region(&mut self, n: usize)
        requires
            old(self).wf(),
        ensures
            final(self).wf(),
            final(self).model() == old(self).model().scroll_down_in_region(n as int),
    {
        proof {
            reveal(TerminalModel::scroll_down_in_region);
        }
        let range = self.top_margin..self.bottom_margin + 1;
        self.buffer.scroll_down(range, n, &self.pen);
        self.dirty_lines.extend(self.top_margin..self.bottom_margin + 1);
    }
}

impl Terminal {
    fn set_tab(&mut self)
        requires
            old(self).wf(),
        ensures
            final(self).wf(),
            final(self).model() == old(self).model().set_tab(),
    {
        proof {
            reveal(TerminalModel::set_tab);
        }
        if 0 < self.cursor.col && self.cursor.col < self.cols {
            self.tabs.set(self.cursor.col);
            proof {
                crate::tabs::lemma_with_stop(old(self).tabs@, self.cursor.col);
                assert forall|i: int| 0 <= i < self.tabs@.len() implies self.tabs@[i]
                    < self.cols by {
                    assert(self.tabs@.contains(self.tabs@[i]));
                    if old(self).tabs@.contains(self.tabs@[i]) {
                        let k = choose|k: int|
                            0 <= k < old(self).tabs@.len() && old(self).tabs@[k] == self.tabs@[i];
                        assert(old(self).tabs@[k] < self.cols);
                    }
                }
            }
        }
    }

    fn clear_tab(&mut self)
        requires
            old(self).wf(),
        ensures
            final(self).wf(),
            final(self).model() == old(self).model().clear_tab(),
    {
        proof {
            reveal(TerminalModel::clear_tab);
        }
        self.tabs.unset(self.cursor.col);
        proof {
            crate::tabs::lemma_without_stop(old(self).tabs@, self.cursor.col);
            assert forall|i: int| 0 <= i < self.tabs@.len() implies self.tabs@[i] < self.cols by {
                let t = self.tabs@[i];
                assert(self.tabs@.contains(t));
                assert(old(self).tabs@.contains(t));
                let k = choose|k: int| 0 <= k < old(self).tabs@.len() && old(self).tabs@[k] == t;
                assert(old(self).model().tabs[k] < self.cols);
            }
        }
    }

    fn clear_all_tabs(&mut self)
        requires
            old(self).wf(),
        ensures
            final(self).wf(),
            final(self).model() == old(self).model().clear_all_tabs(),
    {
        proof {
            reveal(TerminalModel::clear_all_tabs);
        }
        self.tabs.clear();
    }

    fn move_cursor_to_next_tab(&mut self, n: usize)
        requires
            old(self).wf(),
        ensures
            final(self).wf(),
            final(self).model() == old(self).model().move_cursor_to_next_tab(n as int),
    {
        proof {
            reveal(TerminalModel::move_cursor_to_next_tab);
        }
        let next_tab = match self.tabs.after(self.cursor.col, n) {
            Some(tab) => tab,
            None => self.cols - 1,
        };
        self.move_cursor_to_col(next_tab);
    }

    fn move_cursor_to_prev_tab(&mut self, n: usize)
        requires
            old(self).wf(),
        ensures
            final(self).wf(),
            final(self).model() == old(self).model().move_cursor_to_prev_tab(n as int),
    {
        proof {
            reveal(TerminalModel::move_cursor_to_prev_tab);
        }
        let prev_tab = match self.tabs.before(self.cursor.col, n) {
            Some(tab) => tab,
            None => 0,
        };
        self.move_cursor_to_col(prev_tab);
    }
}

impl Terminal {
    fn switch_to_alternate_buffer(&mut self, save_cursor: bool)
        requires
            old(self).wf(),
        ensures
            final(self).wf(),
            final(self).model() == old(self).model().switch_to_alternate_buffer(save_cursor),
    {
        proof {
            reveal(TerminalModel::switch_to_alternate_buffer);
        }
        if save_cursor {
            self.save_cursor();
        }
        if let BufferType::Primary = self.active_buffer_type {
            self.active_buffer_type = BufferType::Alternate;
            std::mem::swap(&mut self.saved_ctx, &mut self.alternate_saved_ctx);
            std::mem::swap(&mut self.buffer, &mut self.other_buffer);
            self.buffer = Buffer::new(self.cols, self.rows, self.pen);
            self.dirty_lines.extend(0..self.rows);
            assert(self.dirty_lines@ =~= crate::dirty_lines::all_dirty(self.rows as nat));
        }
    }

    fn save_cursor(&mut self)
        requires
            old(self).wf(),
        ensures
            final(self).wf(),
            final(self).model() == old(self).model().save_cursor(),
    {
        proof {
            reveal(TerminalModel::save_cursor);
        }
        self.saved_ctx.cursor_col = if self.cursor.col < self.cols - 1 {
            self.cursor.col
        } else {
            self.cols - 1
        };
        self.saved_ctx.cursor_row = self.cursor.row;
        self.saved_ctx.pen = self.pen;
        self.saved_ctx.origin_mode = self.origin_mode;
        self.saved_ctx.auto_wrap_mode = self.auto_wrap_mode;
    }

    fn switch_to_primary_buffer(&mut self, restore_cursor: bool)
        requires
            old(self).wf(),
        ensures
            final(self).wf(),
            final(self).model() == old(self).model().switch_to_primary_buffer(restore_cursor),
    {
        proof {
            reveal(TerminalModel::switch_to_primary_buffer);
        }
        if let BufferType::Alternate = self.active_buffer_type {
            self.active_buffer_type = BufferType::Primary;
            std::mem::swap(&mut self.saved_ctx, &mut self.alternate_saved_ctx);
            std::mem::swap(&mut self.buffer, &mut self.other_buffer);
            self.dirty_lines.extend(0..self.rows);
            assert(self.dirty_lines@ =~= crate::dirty_lines::all_dirty(self.rows as nat));
        }
        if restore_cursor {
            self.restore_cursor();
        }
    }

    fn restore_cursor(&mut self)
        requires
            old(self).wf(),
        ensures
            final(self).wf(),
            final(self).model() == old(self).model().restore_cursor(),
    {
        proof {
            reveal(TerminalModel::restore_cursor);
        }
        self.cursor.col = self.saved_ctx.cursor_col;
        self.cursor.row = self.saved_ctx.cursor_row;
        self.pen = self.saved_ctx.pen;
        self.origin_mode = self.saved_ctx.origin_mode;
        self.auto_wrap_mode = self.saved_ctx.auto_wrap_mode;
        self.next_print_wraps = false;
    }

    fn soft_reset(&mut self)
        requires
            old(self).wf(),
        ensures
            final(self).wf(),
            final(self).model() == old(self).model().soft_reset(),
    {
        proof {
            reveal(TerminalModel::soft_reset);
        }
        self.cursor.visible = true;
        self.pen = Pen::default();
        self.charsets = [Charset::Ascii, Charset::Ascii];
        self.active_charset = 0;
        self.insert_mode = false;
        self.origin_mode = false;
        self.top_margin = 0;
        self.bottom_margin = self.rows - 1;
        self.saved_ctx = SavedCtx::default();
    }

    fn hard_reset(&mut self)
        requires
            old(self).wf(),
        ensures
            final(self).wf(),
            final(self).model() == old(self).model().hard_reset(),
    {
        proof {
            reveal(TerminalModel::hard_reset);
        }
        self.buffer = Buffer::new(self.cols, self.rows, Pen::default());
        self.other_buffer = Buffer::new(self.cols, self.rows, Pen::default());
        self.active_buffer_type = BufferType::Primary;
        self.cursor = Cursor::default();
        self.pen = Pen::default();
        self.charsets = [Charset::Ascii, Charset::Ascii];
        self.active_charset = 0;
        self.tabs = Tabs::new(self.cols);
        self.insert_mode = false;
        self.origin_mode = false;
        self.auto_wrap_mode = true;
        self.new_line_mode = false;
        self.next_print_wraps = false;
        self.top_margin = 0;
        self.bottom_margin = self.rows - 1;
        self.saved_ctx = SavedCtx::default();
        self.alternate_saved_ctx = SavedCtx::default();
        self.dirty_lines.extend(0..self.rows);
        assert(self.dirty_lines@ =~= crate::dirty_lines::all_dirty(self.rows as nat));
    }
}

/// The parameter at `index`, or `default` where it is missing or zero.
fn param_at(params: &[u16], index: usize, default: usize) -> (r: usize)
    requires
        default <= usize::MAX,
    ensures
        r == param(params@, index as int, default as int),
{
    if index < params.len() && params[index] != 0 {
        params[index] as usize
    } else {
        default
    }
}

/// A pen after one code of a graphic rendition that takes no further parameters.
fn pen_after(pen: Pen, code: u16) -> (r: Pen)
    ensures
        r == sgr_simple(pen, code),
{
    let mut pen = pen;
    if code == 0 {
        pen = Pen::default();
    } else if code == 1 {
        pen.intensity = Intensity::Bold;
    } else if code == 2 {
        pen.intensity = Intensity::Faint;
    } else if code == 3 {
        pen.set_italic();
    } else if code == 4 {
        pen.set_underline();
    } else if code == 5 {
        pen.set_blink();
    } else if code == 7 {
        pen.set_inverse();
    } else if code == 9 {
        pen.set_strikethrough();
    } else if code == 21 || code == 22 {
        pen.intensity = Intensity::Normal;
    } else if code == 23 {
        pen.unset_italic();
    } else if code == 24 {
        pen.unset_underline();
    } else if code == 25 {
        pen.unset_blink();
    } else if code == 27 {
        pen.unset_inverse();
    } else if 30 <= code && code <= 37 {
        pen.foreground = Some(Color::Indexed((code - 30) as u8));
    } else if code == 39 {
        pen.foreground = None;
    } else if 40 <= code && code <= 47 {
        pen.background = Some(Color::Indexed((code - 40) as u8));
    } else if code == 49 {
        pen.background = None;
    } else if 90 <= code && code <= 97 {
        pen.foreground = Some(Color::Indexed((code - 90 + 8) as u8));
    } else if 100 <= code && code <= 107 {
        pen.background = Some(Color::Indexed((code - 100 + 8) as u8));
    }
    pen
}

/// The colour that the parameters from `at` on select, if they are
/// complete, and how many parameters the selection takes up with the code
/// before it.
fn color_at(params: &[u16], at: usize) -> (r: (Option<Color>, usize))
    requires
        1 <= at <= params@.len(),
    ensures
        r.0 == sgr_color(params@, at as int),
        r.1 == sgr_color_width(params@, at as int),
        at - 1 + r.1 <= params@.len(),
{
    let len = params.len();
    if at < len && params[at] == 2 {
        if len - at > 3 {
            (
                Some(
                    Color::RGB(
                        Rgb::new(
                            channel(params[at + 1]),
                            channel(params[at + 2]),
                            channel(params[at + 3]),
                        ),
                    ),
                ),
                5,
            )
        } else {
            (None, 2)
        }
    } else if at < len && params[at] == 5 {
        if len - at > 1 {
            (Some(Color::Indexed(channel(params[at + 1]))), 3)
        } else {
            (None, 2)
        }
    } else {
        (None, 1)
    }
}

impl Terminal {
    /// Carries out the pending wrap.
    fn wrap_line(&mut self)
        requires
            old(self).wf(),
        ensures
            final(self).wf(),
            final(self).model() == old(self).model().wrap_line(),
    {
        proof {
            reveal(TerminalModel::wrap_line);
        }
        self.carriage_return();
        if self.cursor.row == self.bottom_margin {
            self.buffer.wrap(self.cursor.row);
            self.scroll_up_in_region(1);
        } else if self.cursor.row < self.rows - 1 {
            self.buffer.wrap(self.cursor.row);
            self.do_move_cursor_to_row(self.cursor.row + 1);
        }
    }

    /// Prints `input` `n` times.
    fn print_times(&mut self, input: char, n: usize)
        requires
            old(self).wf(),
        ensures
            final(self).wf(),
            final(self).model() == old(self).model().print_times(input, n as int),
    {
        let mut i: usize = 0;
        while i < n
            invariant
                i <= n,
                self.wf(),
                self.model() == old(self).model().print_times(input, i as int),
            decreases n - i,
        {
            self.print(input);
            i = i + 1;
        }
    }

    /// Prints the character to the left of the cursor `n` times more.
    fn repeat(&mut self, n: usize)
        requires
            old(self).wf(),
        ensures
            final(self).wf(),
            final(self).model() == old(self).model().repeat(n as int),
    {
        proof {
            reveal(TerminalModel::repeat);
        }
        if self.cursor.col > 0 {
            let ch = self.buffer.view()[self.cursor.row].cells[self.cursor.col - 1].ch;
            self.print_times(ch, n);
        }
    }

    /// Inserts `n` blanks of the pen at the cursor.
    fn insert_blanks(&mut self, n: usize)
        requires
            old(self).wf(),
        ensures
            final(self).wf(),
            final(self).model() == old(self).model().insert_blanks(n as int),
    {
        proof {
            reveal(TerminalModel::insert_blanks);
        }
        let cell = Cell::blank(self.pen);
        self.buffer.insert(self.cursor.position(), n, cell);
        self.dirty_lines.add(self.cursor.row);
    }

    /// Deletes `n` characters at the cursor.
    fn delete_chars(&mut self, n: usize)
        requires
            old(self).wf(),
        ensures
            final(self).wf(),
            final(self).model() == old(self).model().delete_chars(n as int),
    {
        proof {
            reveal(TerminalModel::delete_chars);
        }
        if self.cursor.col >= self.cols {
            self.move_cursor_to_col(self.cols - 1);
        }
        self.buffer.delete(self.cursor.position(), n, &self.pen);
        self.dirty_lines.add(self.cursor.row);
    }

    /// The rows that inserting or deleting lines at the cursor moves.
    fn lines_below(&self) -> (r: (usize, usize))
        requires
            self.wf(),
        ensures
            r.0 == self.model().lines_below().0,
            r.1 == self.model().lines_below().1,
            r.0 < r.1 <= self.model().rows,
    {
        if self.cursor.row <= self.bottom_margin {
            (self.cursor.row, self.bottom_margin + 1)
        } else {
            (self.cursor.row, self.rows)
        }
    }

    /// Inserts `n` blank lines at the cursor.
    fn insert_lines(&mut self, n: usize)
        requires
            old(self).wf(),
        ensures
            final(self).wf(),
            final(self).model() == old(self).model().insert_lines(n as int),
    {
        proof {
            reveal(TerminalModel::insert_lines);
        }
        let (start, end) = self.lines_below();
        self.buffer.scroll_down(start..end, n, &self.pen);
        self.dirty_lines.extend(start..end);
    }

    /// Deletes `n` lines at the cursor.
    fn delete_lines(&mut self, n: usize)
        requires
            old(self).wf(),
        ensures
            final(self).wf(),
            final(self).model() == old(self).model().delete_lines(n as int),
    {
        proof {
            reveal(TerminalModel::delete_lines);
        }
        let (start, end) = self.lines_below();
        self.buffer.scroll_up(start..end, n, &self.pen);
        self.dirty_lines.extend(start..end);
    }

    /// Sets the margins from the parameters and sends the cursor home.
    fn set_margins(&mut self, params: &[u16])
        requires
            old(self).wf(),
        ensures
            final(self).wf(),
            final(self).model() == old(self).model().set_margins(params@),
    {
        proof {
            reveal(TerminalModel::set_margins);
        }
        let top = param_at(params, 0, 1) - 1;
        let bottom = param_at(params, 1, self.rows) - 1;
        if top < bottom && bottom < self.rows {
            self.top_margin = top;
            self.bottom_margin = bottom;
        }
        self.move_cursor_home();
    }

    /// Changes the pen as the parameters of a graphic rendition say.
    fn select_graphic_rendition(&mut self, params: &[u16])
        requires
            old(self).wf(),
        ensures
            final(self).wf(),
            final(self).model() == (TerminalModel {
                pen: sgr(old(self).model().pen, params@, 0),
                ..old(self).model()
            }),
    {
        let mut i: usize = 0;
        while i < params.len()
            invariant
                i <= params@.len(),
                self.wf(),
                self.model() == (TerminalModel { pen: self.pen, ..old(self).model() }),
                sgr(self.pen, params@, i as int) == sgr(old(self).pen, params@, 0),
            decreases params@.len() - i,
        {
            let code = params[i];
            if code == 38 {
                let (color, width) = color_at(params, i + 1);
                if let Some(color) = color {
                    self.pen.foreground = Some(color);
                }
                i = i + width;
            } else if code == 48 {
                let (color, width) = color_at(params, i + 1);
                if let Some(color) = color {
                    self.pen.background = Some(color);
                }
                i = i + width;
            } else {
                self.pen = pen_after(self.pen, code);
                i = i + 1;
            }
        }
    }

    fn set_insert_mode(&mut self, on: bool)
        requires
            old(self).wf(),
        ensures
            final(self).wf(),
            final(self).model() == old(self).model().with_insert_mode(on),
    {
        self.insert_mode = on;
    }

    fn set_new_line_mode(&mut self, on: bool)
        requires
            old(self).wf(),
        ensures
            final(self).wf(),
            final(self).model() == old(self).model().with_new_line_mode(on),
    {
        self.new_line_mode = on;
    }

    fn set_origin_mode(&mut self, on: bool)
        requires
            old(self).wf(),
        ensures
            final(self).wf(),
            final(self).model() == old(self).model().with_origin_mode(on),
    {
        self.origin_mode = on;
    }

    fn set_auto_wrap_mode(&mut self, on: bool)
        requires
            old(self).wf(),
        ensures
            final(self).wf(),
            final(self).model() == old(self).model().with_auto_wrap_mode(on),
    {
        self.auto_wrap_mode = on;
    }

    fn set_cursor_visible(&mut self, on: bool)
        requires
            old(self).wf(),
        ensures
            final(self).wf(),
            final(self).model() == old(self).model().with_cursor_visible(on),
    {
        self.cursor.visible = on;
    }

    fn set_active_charset(&mut self, slot: usize)
        requires
            old(self).wf(),
            slot < 2,
        ensures
            final(self).wf(),
            final(self).model() == old(self).model().with_active_charset(slot as int),
    {
        self.active_charset = slot;
    }

    /// Puts `cell` at the cursor and moves the cursor on.
    fn put(&mut self, cell: Cell)
        requires
            old(self).wf(),
        ensures
            final(self).wf(),
            final(self).model() == old(self).model().put(cell),
    {
        let row = self.cursor.row;
        if self.cursor.col >= self.cols - 1 {
            self.buffer.print((self.cols - 1, row), cell);
            if self.auto_wrap_mode {
                self.cursor.col = self.cols;
                self.next_print_wraps = true;
            }
        } else {
            if self.insert_mode {
                self.buffer.insert(self.cursor.position(), 1, cell);
            } else {
                self.buffer.print(self.cursor.position(), cell);
            }
            self.cursor.col = self.cursor.col + 1;
            self.next_print_wraps = false;
        }
        self.dirty_lines.add(row);
    }

    /// Switches one mode on or off.
    fn switch_mode(&mut self, private: bool, on: bool, mode: u16)
        requires
            old(self).wf(),
        ensures
            final(self).wf(),
            final(self).model() == old(self).model().switch_mode(private, on, mode),
    {
        proof {
            reveal(TerminalModel::switch_mode);
        }
        if !private {
            if mode == 4 {
                self.set_insert_mode(on);
            } else if mode == 20 {
                self.set_new_line_mode(on);
            }
        } else if mode == 6 {
            self.set_origin_mode(on);
            self.move_cursor_home();
        } else if mode == 7 {
            self.set_auto_wrap_mode(on);
        } else if mode == 25 {
            self.set_cursor_visible(on);
        } else if mode == 47 || mode == 1047 {
            if on {
                self.switch_to_alternate_buffer(false);
            } else {
                self.switch_to_primary_buffer(false);
            }
        } else if mode == 1048 {
            if on {
                self.save_cursor();
            } else {
                self.restore_cursor();
            }
        } else if mode == 1049 {
            if on {
                self.switch_to_alternate_buffer(true);
            } else {
                self.switch_to_primary_buffer(true);
            }
        }
    }

    /// Switches the modes that the parameters name, one after the other.
    fn switch_modes(&mut self, private: bool, on: bool, modes: &[u16])
        requires
            old(self).wf(),
        ensures
            final(self).wf(),
            final(self).model() == old(self).model().switch_modes(private, on, modes@),
    {
        let mut i: usize = 0;
        while i < modes.len()
            invariant
                i <= modes@.len(),
                self.wf(),
                self.model() == old(self).model().switch_modes(private, on, modes@.take(i as int)),
            decreases modes@.len() - i,
        {
            proof {
                let next = modes@.take(i + 1);
                assert(next.drop_last() =~= modes@.take(i as int));
                assert(next.last() == modes@[i as int]);
            }
            self.switch_mode(private, on, modes[i]);
            i = i + 1;
        }
        assert(modes@.take(modes@.len() as int) =~= modes@);
    }

    /// Fills the screen with `E` in the default pen.
    fn align(&mut self)
        requires
            old(self).wf(),
        ensures
            final(self).wf(),
            final(self).model() == old(self).model().align(),
    {
        proof {
            reveal(TerminalModel::align);
        }
        self.buffer.fill(Cell::new('E', Pen::default()));
        self.dirty_lines.extend(0..self.rows);
        assert(self.dirty_lines@ =~= crate::dirty_lines::all_dirty(self.rows as nat));
    }

    /// Sets the character set of a slot.
    fn set_charset(&mut self, slot: usize, charset: Charset)
        requires
            old(self).wf(),
            slot < 2,
        ensures
            final(self).wf(),
            final(self).model() == old(self).model().with_charset(slot as int, charset),
    {
        self.charsets[slot] = charset;
    }

    /// Acts on a control sequence without intermediates.
    fn csi_plain(&mut self, input: char, params: &[u16])
        requires
            old(self).wf(),
        ensures
            final(self).wf(),
            final(self).model() == old(self).model().csi_plain(input, params@),
    {
        proof {
            reveal(TerminalModel::csi_plain);
        }
        let n = param_at(params, 0, 1);
        let kind = param_at(params, 0, 0);
        if input == '@' {
            self.insert_blanks(n);
        } else if input == 'A' {
            self.cursor_up(n);
        } else if input == 'B' || input == 'e' {
            self.cursor_down(n);
        } else if input == 'b' {
            self.repeat(n);
        } else if input == 'C' || input == 'a' {
            self.move_cursor_right(n);
        } else if input == 'D' {
            if self.next_print_wraps {
                self.move_cursor_left(n + 1);
            } else {
                self.move_cursor_left(n);
            }
        } else if input == 'd' {
            self.move_cursor_to_row(n - 1);
        } else if input == 'E' {
            self.cursor_down(n);
            self.carriage_return();
        } else if input == 'F' {
            self.cursor_up(n);
            self.carriage_return();
        } else if input == 'G' || input == '`' {
            self.move_cursor_to_col(n - 1);
        } else if input == 'g' {
            if kind == 0 {
                self.clear_tab();
            } else if kind == 3 {
                self.clear_all_tabs();
            }
        } else if input == 'H' || input == 'f' {
            let col = param_at(params, 1, 1);
            self.move_cursor_to_col(col - 1);
            self.move_cursor_to_row(n - 1);
        } else if input == 'h' {
            self.switch_modes(false, true, params);
        } else if input == 'l' {
            self.switch_modes(false, false, params);
        } else if input == 'I' {
            self.move_cursor_to_next_tab(n);
        } else if input == 'J' {
            if kind == 0 {
                self.erase(EraseMode::FromCursorToEndOfView);
            } else if kind == 1 {
                self.erase(EraseMode::FromStartOfViewToCursor);
            } else if kind == 2 {
                self.erase(EraseMode::WholeView);
            }
        } else if input == 'K' {
            if kind == 0 {
                self.erase(EraseMode::FromCursorToEndOfLine);
            } else if kind == 1 {
                self.erase(EraseMode::FromStartOfLineToCursor);
            } else if kind == 2 {
                self.erase(EraseMode::WholeLine);
            }
        } else if input == 'L' {
            self.insert_lines(n);
        } else if input == 'M' {
            self.delete_lines(n);
        } else if input == 'm' {
            self.select_graphic_rendition(params);
        } else if input == 'P' {
            self.delete_chars(n);
        } else if input == 'r' {
            self.set_margins(params);
        } else if input == 'S' {
            self.scroll_up_in_region(n);
        } else if input == 's' {
            self.save_cursor();
        } else if input == 'T' {
            self.scroll_down_in_region(n);
        } else if input == 'u' {
            self.restore_cursor();
        } else if input == 'W' {
            if kind == 0 {
                self.set_tab();
            } else if kind == 2 {
                self.clear_tab();
            } else if kind == 5 {
                self.clear_all_tabs();
            }
        } else if input == 'X' {
            self.erase(EraseMode::NextChars(n));
        } else if input == 'Z' {
            self.move_cursor_to_prev_tab(n);
        }
    }
}

impl Emulator for Terminal {
    open spec fn valid(&self) -> bool {
        self.wf()
    }

    open spec fn handles(&self, event: Event, next: &Self) -> bool {
        next.model() == self.model().apply(event)
    }

    fn print(&mut self, input: char)
        ensures
            final(self).model() == old(self).model().print(input),
    {
        proof {
            reveal(TerminalModel::print);
        }
        let input = self.charsets[self.active_charset].translate(input);
        let cell = Cell::new(input, self.pen);
        if self.auto_wrap_mode && self.next_print_wraps {
            self.wrap_line();
        }
        self.put(cell);
    }

    fn execute(&mut self, input: char)
        ensures
            final(self).model() == old(self).model().execute(input),
    {
        proof {
            reveal(TerminalModel::execute);
        }
        if input == '\u{08}' {
            if self.next_print_wraps {
                self.move_cursor_left(2);
            } else {
                self.move_cursor_left(1);
            }
        } else if input == '\u{09}' {
            self.move_cursor_to_next_tab(1);
        } else if input == '\u{0a}' || input == '\u{0b}' || input == '\u{0c}' || input
            == '\u{84}' {
            self.linefeed();
        } else if input == '\u{0d}' {
            self.carriage_return();
        } else if input == '\u{0e}' {
            self.set_active_charset(1);
        } else if input == '\u{0f}' {
            self.set_active_charset(0);
        } else if input == '\u{85}' {
            self.linefeed();
            self.carriage_return();
        } else if input == '\u{88}' {
            self.set_tab();
        } else if input == '\u{8d}' {
            self.reverse_index();
        }
    }

    fn csi_dispatch(&mut self, input: char, interims: &[char], params: &[u16])
        ensures
            final(self).model() == old(self).model().csi_dispatch(input, interims@, params@),
    {
        proof {
            reveal(TerminalModel::csi_dispatch);
        }
        if interims.len() == 0 {
            self.csi_plain(input, params);
        } else if interims.len() == 1 && interims[0] == '?' && input == 'h' {
            self.switch_modes(true, true, params);
        } else if interims.len() == 1 && interims[0] == '?' && input == 'l' {
            self.switch_modes(true, false, params);
        } else if interims.len() == 1 && interims[0] == '!' && input == 'p' {
            self.soft_reset();
        }
    }

    fn esc_dispatch(&mut self, input: char, interims: &[char])
        ensures
            final(self).model() == old(self).model().esc_dispatch(input, interims@),
    {
        proof {
            reveal(TerminalModel::esc_dispatch);
            reveal(TerminalModel::execute);
        }
        if interims.len() == 0 {
            if '@' <= input && input <= '_' {
                match input {
                    'D' => self.execute('\u{84}'),
                    'E' => self.execute('\u{85}'),
                    'H' => self.execute('\u{88}'),
                    'M' => self.execute('\u{8d}'),
                    _ => (),
                }
            } else if input == '7' {
                self.save_cursor();
            } else if input == '8' {
                self.restore_cursor();
            } else if input == 'c' {
                self.hard_reset();
            }
        } else if interims.len() == 1 && interims[0] == '#' && input == '8' {
            self.align();
        } else if interims.len() == 1 && interims[0] == '(' {
            self.set_charset(
                0,
                if input == '0' {
                    Charset::Drawing
                } else {
                    Charset::Ascii
                },
            );
        } else if interims.len() == 1 && interims[0] == ')' {
            self.set_charset(
                1,
                if input == '0' {
                    Charset::Drawing
                } else {
                    Charset::Ascii
                },
            );
        }
    }
}

/// A terminal that has handled a run of events is in the state that
/// applying them one after the other gives.
pub proof fn lemma_handled_events_apply(pre: Terminal, events: Seq<Event>, post: Terminal)
    requires
        handles_all(pre, events, post),
    ensures
        post.model() == pre.model().apply_all(events),
    decreases events.len(),
{
    if events.len() > 0 {
        let mid = choose|mid: Terminal|
            #![trigger mid.handles(events.last(), &post)]
            handles_all(pre, events.drop_last(), mid) && mid.handles(events.last(), &post);
        lemma_handled_events_apply(pre, events.drop_last(), mid);
    }
}

} // verus!
