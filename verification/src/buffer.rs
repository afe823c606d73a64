use crate::cell::Cell;
use crate::line::{Line, LineView};
use crate::pen::Pen;
use crate::reflow::{
    advance, blank_lines, empty_lines, lemma_advance_bounds, lemma_flow_is_laid_out,
    lemma_reflow_keeps_text, lemma_text_with_blank_lines, logical_text, reflow, reflow_lines,
    views, Flow,
};
use std::ops::Range;
use vstd::prelude::*;

verus! {

/// The lines of a screen: the `rows` visible ones at the end, and before
/// them the lines that have scrolled off the top.
#[derive(Debug)]
pub struct Buffer {
    cols: usize,
    rows: usize,
    lines: Vec<Line>,
}

/// What an erase takes away, relative to a position.
#[derive(Debug, Clone, Copy, PartialEq, Eq)]
pub enum EraseMode {
    NextChars(usize),
    FromCursorToEndOfView,
    FromStartOfViewToCursor,
    WholeView,
    FromCursorToEndOfLine,
    FromStartOfLineToCursor,
    WholeLine,
}

/// The value of a buffer: its size and all of its lines, the visible rows last.
#[verifier::ext_equal]
pub struct BufferModel {
    pub cols: nat,
    pub rows: nat,
    pub lines: Seq<LineView>,
}

/// The smaller of two numbers.
pub open spec fn min(a: int, b: int) -> int {
    if a <= b {
        a
    } else {
        b
    }
}

impl BufferModel {
    /// There are at least `rows` lines, and each is `cols` wide.
    pub open spec fn wf(self) -> bool {
        &&& self.rows <= self.lines.len()
        &&& forall|i: int|
            0 <= i < self.lines.len() ==> (#[trigger] self.lines[i]).cells.len() == self.cols
    }

    /// A buffer of blank lines of `pen`, with nothing scrolled off.
    pub open spec fn blank(cols: nat, rows: nat, pen: Pen) -> BufferModel {
        BufferModel { cols, rows, lines: Seq::new(rows, |i: int| LineView::blank(cols, pen)) }
    }

    /// The last visible row does not run on.
    pub open spec fn last_unwrapped(self) -> bool {
        self.rows >= 1 ==> !self.row(self.rows - 1).wrapped
    }

    /// The other buffer has the size of this one.
    pub open spec fn same_size(self, other: BufferModel) -> bool {
        self.cols == other.cols && self.rows == other.rows
    }

    /// What a step from this buffer to `after` keeps: the lines are as wide
    /// as the buffer, the size is the same, and the last row does not run
    /// on if it did not before.
    pub open spec fn keeps(self, after: BufferModel) -> bool {
        &&& after.wf()
        &&& after.same_size(self)
        &&& self.last_unwrapped() ==> after.last_unwrapped()
    }

    /// The number of lines that have scrolled off the top.
    pub open spec fn scrollback(self) -> int {
        self.lines.len() - self.rows
    }

    /// The visible rows.
    pub open spec fn view(self) -> Seq<LineView> {
        self.lines.subrange(self.scrollback(), self.lines.len() as int)
    }

    /// The visible row `row`.
    pub open spec fn row(self, row: int) -> LineView {
        self.lines[self.scrollback() + row]
    }

    /// This buffer with `line` as its visible row `row`.
    pub open spec fn with_row(self, row: int, line: LineView) -> BufferModel {
        BufferModel { lines: self.lines.update(self.scrollback() + row, line), ..self }
    }

    /// This buffer with the continuation flag of the visible row `row` cleared.
    pub open spec fn unwrap(self, row: int) -> BufferModel {
        self.with_row(row, self.row(row).with_wrapped(false))
    }

    /// This buffer with `cell` at column `col` of row `row`.
    pub open spec fn print(self, col: int, row: int, cell: Cell) -> BufferModel {
        self.with_row(row, self.row(row).print(col, cell))
    }

    /// This buffer with row `row` marked as running on into the next.
    pub open spec fn wrap(self, row: int) -> BufferModel {
        self.with_row(row, self.row(row).with_wrapped(true))
    }

    /// This buffer with up to `n` copies of `cell` pushed into row `row` at
    /// `col`, no more than fit between `col` and the end of the row.
    pub open spec fn insert(self, col: int, row: int, n: int, cell: Cell) -> BufferModel {
        self.with_row(row, self.row(row).insert(col, min(n, self.cols - col), cell))
    }

    /// This buffer with up to `n` cells taken out of row `row` at `col`, no
    /// more than there are from `col` on; the row no longer runs on.
    pub open spec fn delete(self, col: int, row: int, n: int, pen: Pen) -> BufferModel {
        self.with_row(
            row,
            self.row(row).delete(col, min(n, self.cols - col), pen).with_wrapped(false),
        )
    }

    /// This buffer with blank lines of `pen` as the visible rows from `start`
    /// up to, not including, `end`.
    pub open spec fn clear(self, start: int, end: int, pen: Pen) -> BufferModel {
        BufferModel {
            lines: Seq::new(
                self.lines.len(),
                |i: int|
                    if start <= i - self.scrollback() < end {
                        LineView::blank(self.cols, pen)
                    } else {
                        self.lines[i]
                    },
            ),
            ..self
        }
    }

    /// This buffer after an erase of the given kind at column `col` of row
    /// `row`, with blanks of `pen` in place of what was erased. An erase that
    /// reaches the end of a row stops the row from running on.
    #[verifier::opaque]
    pub open spec fn erase(self, col: int, row: int, mode: EraseMode, pen: Pen) -> BufferModel {
        let line = self.row(row);
        let cols = self.cols as int;
        match mode {
            EraseMode::NextChars(n) => {
                let end = col + min(n as int, cols - col);
                self.with_row(
                    row,
                    line.clear(col, end, pen).with_wrapped(line.wrapped && end != cols),
                )
            },
            EraseMode::FromCursorToEndOfView => self.with_row(
                row,
                line.clear(col, cols, pen).with_wrapped(false),
            ).clear(row + 1, self.rows as int, pen),
            EraseMode::FromStartOfViewToCursor => self.with_row(
                row,
                line.clear(0, min(col + 1, cols), pen),
            ).clear(0, row, pen),
            EraseMode::WholeView => self.clear(0, self.rows as int, pen),
            EraseMode::FromCursorToEndOfLine => self.with_row(
                row,
                line.clear(col, cols, pen).with_wrapped(false),
            ),
            EraseMode::FromStartOfLineToCursor => self.with_row(
                row,
                line.clear(0, min(col + 1, cols), pen),
            ),
            EraseMode::WholeLine => self.with_row(
                row,
                line.clear(0, cols, pen).with_wrapped(false),
            ),
        }
    }

    /// This buffer with `cell` in every position of the visible rows.
    #[verifier::opaque]
    pub open spec fn fill(self, cell: Cell) -> BufferModel {
        BufferModel {
            lines: Seq::new(
                self.lines.len(),
                |i: int|
                    if self.scrollback() <= i {
                        LineView { cells: Seq::new(self.cols, |c: int| cell), ..self.lines[i] }
                    } else {
                        self.lines[i]
                    },
            ),
            ..self
        }
    }

    /// This buffer with `k` blank lines of `pen` pushed in below the visible
    /// row `end - 1`. The lines above them stay in the buffer, so the first
    /// `end` visible rows move up by `k`, and `k` of them leave the screen.
    pub open spec fn push_up(self, end: int, k: int, pen: Pen) -> BufferModel {
        BufferModel {
            lines: self.lines.subrange(0, self.scrollback() + end) + Seq::new(
                k as nat,
                |i: int| LineView::blank(self.cols, pen),
            ) + self.lines.subrange(self.scrollback() + end, self.lines.len() as int),
            ..self
        }
    }

    /// This buffer with the visible rows from `start` up to, not including,
    /// `end` moved up by `k`: the first `k` of them are lost and `k` blank
    /// lines of `pen` end the range.
    pub open spec fn rotate_up(self, start: int, end: int, k: int, pen: Pen) -> BufferModel {
        BufferModel {
            lines: Seq::new(
                self.lines.len(),
                |i: int|
                    if start <= i - self.scrollback() < end - k {
                        self.lines[i + k]
                    } else if end - k <= i - self.scrollback() < end {
                        LineView::blank(self.cols, pen)
                    } else {
                        self.lines[i]
                    },
            ),
            ..self
        }
    }

    /// This buffer with the visible rows from `start` up to, not including,
    /// `end` moved down by `k`: the last `k` of them are lost and `k` blank
    /// lines of `pen` begin the range.
    pub open spec fn rotate_down(self, start: int, end: int, k: int, pen: Pen) -> BufferModel {
        BufferModel {
            lines: Seq::new(
                self.lines.len(),
                |i: int|
                    if start <= i - self.scrollback() < start + k {
                        LineView::blank(self.cols, pen)
                    } else if start + k <= i - self.scrollback() < end {
                        self.lines[i - k]
                    } else {
                        self.lines[i]
                    },
            ),
            ..self
        }
    }

    /// This buffer after the visible rows from `start` up to, not including,
    /// `end` have moved up by `n`, or by all of them if there are fewer. Blank
    /// lines of `pen` come in at the bottom of the range. Where the range
    /// starts at the top of the screen, the rows that leave it stay in the
    /// buffer, above the visible rows; elsewhere they are lost. The row above
    /// the range, a row that ends the range short of the bottom of the screen,
    /// and the last row of the range afterwards do not run on.
    #[verifier::opaque]
    pub open spec fn scroll_up(self, start: int, end: int, n: int, pen: Pen) -> BufferModel {
        let k = min(n, end - start);
        let cut = if end < self.rows {
            self.unwrap(end - 1)
        } else {
            self
        };
        let moved = if start == 0 {
            cut.push_up(end, k, pen)
        } else {
            cut.unwrap(start - 1).rotate_up(start, end, k, pen)
        };
        moved.unwrap(end - 1)
    }

    /// This buffer after the visible rows from `start` up to, not including,
    /// `end` have moved down by `n`, or by all of them if there are fewer.
    /// Blank lines of `pen` come in at the top of the range and the rows that
    /// leave it at the bottom are lost. The row above the range and the last
    /// row of the range do not run on.
    #[verifier::opaque]
    pub open spec fn scroll_down(self, start: int, end: int, n: int, pen: Pen) -> BufferModel {
        let moved = self.rotate_down(start, end, min(n, end - start), pen);
        let above = if start > 0 {
            moved.unwrap(start - 1)
        } else {
            moved
        };
        above.unwrap(end - 1)
    }

    /// How many blank lines it takes to fill the visible rows when the
    /// lines are laid out anew at the width `cols`.
    pub open spec fn room(self, cols: nat) -> int {
        if reflow(self.lines, cols as int).len() < self.rows {
            self.rows - reflow(self.lines, cols as int).len()
        } else {
            0
        }
    }

    /// This buffer laid out anew at the width `cols`, and where the
    /// position `cursor`, a column and a visible row, comes to lie. The
    /// lines are reflowed; if that leaves fewer than there are rows, blank
    /// lines follow them. The position keeps its place in its logical line:
    /// it lies as many cells into it as before, but no further than the
    /// last row of the line, and in that row no further than the last
    /// column. Where it would come to lie above the visible rows, there are
    /// as many more visible rows as it takes to show it in the first.
    #[verifier::opaque]
    pub open spec fn resize_cols(self, cols: nat, cursor: (int, int)) -> (BufferModel, (int, int)) {
        let at = self.scrollback() + cursor.1;
        let before = Flow::start().over(self.lines.take(at), cols as int);
        let flowed = reflow(self.lines, cols as int);
        let lines = if flowed.len() < self.rows {
            flowed + blank_lines(cols, self.rows - flowed.len())
        } else {
            flowed
        };
        let target = advance(
            flowed,
            before.rows.len() as int,
            before.pending.len() + cursor.0,
            cols as int,
        );
        let row = min(target.0, lines.len() - 1);
        let col = min(target.1, cols - 1);
        let top = lines.len() - self.rows;
        if row >= top {
            (BufferModel { cols, rows: self.rows, lines }, (col, row - top))
        } else {
            (BufferModel { cols, rows: (lines.len() - row) as nat, lines }, (col, 0))
        }
    }

    /// This buffer with `rows` visible rows, and where the position
    /// `cursor` comes to lie. With fewer rows than before, lines leave at
    /// the bottom, but none from the row of the position up; the last line
    /// then does not run on; for what is still too much, the visible rows
    /// start further down. With more rows, lines that had scrolled off the
    /// top become visible again, and for what is still missing, blank lines
    /// of the default pen come in at the bottom.
    #[verifier::opaque]
    pub open spec fn resize_rows(self, rows: nat, cursor: (int, int)) -> (BufferModel, (int, int)) {
        if rows < self.rows {
            let delta = self.rows - rows;
            let excess = min(delta, self.rows - 1 - cursor.1);
            let kept = BufferModel {
                rows,
                lines: self.lines.take(self.lines.len() - excess),
                ..self
            };
            (
                if excess > 0 {
                    kept.unwrap(rows - 1)
                } else {
                    kept
                },
                (cursor.0, cursor.1 - (delta - excess)),
            )
        } else {
            let delta = rows - self.rows;
            let shift = min(self.scrollback(), delta);
            (
                BufferModel {
                    rows,
                    lines: self.lines + blank_lines(self.cols, delta - shift),
                    ..self
                },
                (cursor.0, cursor.1 + shift),
            )
        }
    }

    /// This buffer made `cols` wide and `rows` high, and where the position
    /// `cursor` comes to lie: first the width changes, if it differs, then
    /// the height.
    pub open spec fn resize(self, cols: nat, rows: nat, cursor: (int, int)) -> (
        BufferModel,
        (int, int),
    ) {
        let (flowed, moved) = if cols != self.cols {
            self.resize_cols(cols, cursor)
        } else {
            (self, cursor)
        };
        flowed.resize_rows(rows, moved)
    }
}

/// A change of width alone keeps the text of a buffer: the logical lines
/// are the same as before, up to default cells at their ends, followed by
/// one empty line for each blank line that fills the visible rows. This is
/// so wherever the position that the resize goes by stays within the
/// visible rows.
pub proof fn lemma_resize_width_keeps_text(b: BufferModel, cols: nat, cursor: (int, int))
    requires
        cols >= 1,
        cols != b.cols,
        b.resize_cols(cols, cursor).0.rows == b.rows,
    ensures
        logical_text(b.resize(cols, b.rows, cursor).0.lines) == logical_text(b.lines)
            + empty_lines(b.room(cols)),
{
    reveal(BufferModel::resize_cols);
    reveal(BufferModel::resize_rows);
    let flowed = reflow(b.lines, cols as int);
    lemma_reflow_keeps_text(b.lines, cols as int);
    lemma_text_with_blank_lines(flowed, cols, b.room(cols));
    let laid = b.resize_cols(cols, cursor).0;
    assert(flowed + blank_lines(cols, 0) =~= flowed);
    assert(laid.lines == flowed + blank_lines(cols, b.room(cols)));
    assert(laid.lines + blank_lines(cols, 0) =~= laid.lines);
}

/// Printing a cell, marking a row as running on, and inserting and deleting
/// cells keep the lines as wide as the buffer; but for the mark on the last
/// row, they keep the last row from running on.
pub proof fn lemma_row_steps_keep_wf(
    b: BufferModel,
    col: int,
    row: int,
    n: int,
    cell: Cell,
    pen: Pen,
)
    requires
        b.wf(),
        0 <= col <= b.cols,
        0 <= row < b.rows,
        0 <= n,
    ensures
        col < b.cols ==> b.keeps(b.print(col, row, cell)),
        b.wrap(row).wf() && b.wrap(row).same_size(b),
        row + 1 < b.rows && b.last_unwrapped() ==> b.wrap(row).last_unwrapped(),
        b.keeps(b.insert(col, row, n, cell)),
        b.keeps(b.delete(col, row, n, pen)),
{
}

/// Erasing keeps the lines as wide as the buffer and the last row from
/// running on.
pub proof fn lemma_erase_keeps_wf(b: BufferModel, col: int, row: int, mode: EraseMode, pen: Pen)
    requires
        b.wf(),
        0 <= col <= b.cols,
        0 <= row < b.rows,
    ensures
        b.keeps(b.erase(col, row, mode, pen)),
{
    reveal(BufferModel::erase);
}

/// Scrolling keeps the lines as wide as the buffer; scrolling down keeps the
/// last row from running on, and so does scrolling up, which even stops it
/// where the range reaches the last row.
pub proof fn lemma_scroll_keeps_wf(b: BufferModel, start: int, end: int, n: int, pen: Pen)
    requires
        b.wf(),
        0 <= start <= end,
        1 <= end <= b.rows,
        0 <= n,
    ensures
        b.scroll_up(start, end, n, pen).wf(),
        b.scroll_up(start, end, n, pen).same_size(b),
        b.last_unwrapped() || end == b.rows ==> b.scroll_up(start, end, n, pen).last_unwrapped(),
        b.keeps(b.scroll_down(start, end, n, pen)),
{
    reveal(BufferModel::scroll_up);
    reveal(BufferModel::scroll_down);
}

/// Filling the screen keeps the lines as wide as the buffer and the last
/// row from running on.
pub proof fn lemma_fill_keeps_wf(b: BufferModel, cell: Cell)
    requires
        b.wf(),
    ensures
        b.keeps(b.fill(cell)),
{
    reveal(BufferModel::fill);
}

/// A resize gives a buffer of the new size with lines as wide as it is, in
/// which the last row does not run on if it did not before, and a position
/// in it.
pub proof fn lemma_resize_keeps_wf(b: BufferModel, cols: nat, rows: nat, cursor: (int, int))
    requires
        b.wf(),
        cols >= 1,
        rows >= 1,
        0 <= cursor.0,
        0 <= cursor.1 < b.rows,
    ensures
        b.resize(cols, rows, cursor).0.wf(),
        b.resize(cols, rows, cursor).0.cols == cols,
        b.resize(cols, rows, cursor).0.rows == rows,
        0 <= b.resize(cols, rows, cursor).1.0,
        0 <= b.resize(cols, rows, cursor).1.1 < rows,
        b.last_unwrapped() ==> b.resize(cols, rows, cursor).0.last_unwrapped(),
{
    let flowed = if cols != b.cols {
        lemma_resize_cols_keeps_wf(b, cols, cursor);
        b.resize_cols(cols, cursor)
    } else {
        (b, cursor)
    };
    lemma_resize_rows_keeps_wf(flowed.0, rows, flowed.1);
}

/// A change of width gives a buffer of the new width with lines as wide as
/// it is, in which the last row does not run on, and a position in it.
pub proof fn lemma_resize_cols_keeps_wf(b: BufferModel, cols: nat, cursor: (int, int))
    requires
        b.wf(),
        cols >= 1,
        0 <= cursor.0,
        0 <= cursor.1 < b.rows,
    ensures
        b.resize_cols(cols, cursor).0.wf(),
        b.resize_cols(cols, cursor).0.cols == cols,
        0 <= b.resize_cols(cols, cursor).1.0 < cols,
        0 <= b.resize_cols(cols, cursor).1.1 < b.resize_cols(cols, cursor).0.rows,
        b.resize_cols(cols, cursor).0.last_unwrapped(),
{
    reveal(BufferModel::resize_cols);
    lemma_flow_is_laid_out(b.lines, cols as int);
    let at = b.scrollback() + cursor.1;
    let before = Flow::start().over(b.lines.take(at), cols as int);
    let flowed = reflow(b.lines, cols as int);
    lemma_advance_bounds(
        flowed,
        before.rows.len() as int,
        before.pending.len() + cursor.0,
        cols as int,
    );
    let lines = b.resize_cols(cols, cursor).0.lines;
    assert forall|i: int| 0 <= i < lines.len() implies (#[trigger] lines[i]).cells.len()
        == cols by {
        if i < flowed.len() {
            assert(lines[i] == flowed[i]);
        }
    }
    if lines.len() == flowed.len() {
        assert(lines.last() == flowed.last());
    }
}

/// A change of height gives a buffer of the new height with lines as wide
/// as it is, in which the last row does not run on if it did not before,
/// and a position in it.
pub proof fn lemma_resize_rows_keeps_wf(b: BufferModel, rows: nat, cursor: (int, int))
    requires
        b.wf(),
        rows >= 1,
        0 <= cursor.1 < b.rows,
    ensures
        b.resize_rows(rows, cursor).0.wf(),
        b.resize_rows(rows, cursor).0.cols == b.cols,
        b.resize_rows(rows, cursor).0.rows == rows,
        b.resize_rows(rows, cursor).1.0 == cursor.0,
        0 <= b.resize_rows(rows, cursor).1.1 < rows,
        b.last_unwrapped() ==> b.resize_rows(rows, cursor).0.last_unwrapped(),
{
    reveal(BufferModel::resize_rows);
    let after = b.resize_rows(rows, cursor).0;
    if rows >= b.rows {
        assert forall|i: int| 0 <= i < after.lines.len() implies (#[trigger] after.lines[i]).cells.len()
            == b.cols by {
            if i < b.lines.len() {
                assert(after.lines[i] == b.lines[i]);
            }
        }
        if after.lines.len() == b.lines.len() {
            assert(after.lines.last() == b.lines.last());
        }
    }
}

/// A blank buffer has lines as wide as it is, none of which runs on.
pub proof fn lemma_blank_is_wf(cols: nat, rows: nat, pen: Pen)
    ensures
        BufferModel::blank(cols, rows, pen).wf(),
        BufferModel::blank(cols, rows, pen).last_unwrapped(),
{
}

/// After a scroll up, neither the last row of the range nor the row above
/// the range runs on.
pub proof fn lemma_scroll_up_unwraps(b: BufferModel, start: int, end: int, n: int, pen: Pen)
    requires
        b.wf(),
        0 <= start <= end,
        1 <= end <= b.rows,
    ensures
        !b.scroll_up(start, end, n, pen).row(end - 1).wrapped,
        start > 0 ==> !b.scroll_up(start, end, n, pen).row(start - 1).wrapped,
{
    reveal(BufferModel::scroll_up);
}

/// After a scroll down, neither the last row of the range nor the row above
/// the range runs on.
pub proof fn lemma_scroll_down_unwraps(b: BufferModel, start: int, end: int, n: int, pen: Pen)
    requires
        b.wf(),
        0 <= start <= end,
        1 <= end <= b.rows,
    ensures
        !b.scroll_down(start, end, n, pen).row(end - 1).wrapped,
        start > 0 ==> !b.scroll_down(start, end, n, pen).row(start - 1).wrapped,
{
    reveal(BufferModel::scroll_down);
}

/// After cells are deleted from a row, the row does not run on.
pub proof fn lemma_delete_unwraps(b: BufferModel, col: int, row: int, n: int, pen: Pen)
    requires
        b.wf(),
        0 <= row < b.rows,
    ensures
        !b.delete(col, row, n, pen).row(row).wrapped,
{
}

impl Buffer {
    /// The value of this buffer.
    pub closed spec fn model(&self) -> BufferModel {
        BufferModel {
            cols: self.cols as nat,
            rows: self.rows as nat,
            lines: views(self.lines@),
        }
    }

    /// There are at least `rows` lines, and each is `cols` wide.
    pub open spec fn wf(&self) -> bool {
        self.model().wf()
    }

    pub fn new(cols: usize, rows: usize, pen: Pen) -> (r: Self)
        ensures
            r.wf(),
            r.model() == BufferModel::blank(cols as nat, rows as nat, pen),
    {
        let mut lines: Vec<Line> = Vec::new();
        let mut i: usize = 0;
        while i < rows
            invariant
                i <= rows,
                lines@.len() == i,
                forall|j: int| 0 <= j < i ==> lines@[j]@ == LineView::blank(cols as nat, pen),
            decreases rows - i,
        {
            lines.push(Line::blank(cols, &pen));
            i = i + 1;
        }
        let r = Buffer { cols, rows, lines };
        assert(r.model().lines =~= BufferModel::blank(cols as nat, rows as nat, pen).lines);
        r
    }

    /// The width of each line.
    pub fn cols(&self) -> (r: usize)
        ensures
            r == self.model().cols,
    {
        self.cols
    }

    /// The number of visible rows.
    pub fn rows(&self) -> (r: usize)
        ensures
            r == self.model().rows,
    {
        self.rows
    }

    pub fn print(&mut self, pos: (usize, usize), cell: Cell)
        requires
            old(self).wf(),
            pos.0 < old(self).model().cols,
            pos.1 < old(self).model().rows,
        ensures
            final(self).wf(),
            final(self).model() == old(self).model().print(pos.0 as int, pos.1 as int, cell),
            final(self).model().same_size(old(self).model()),
            old(self).model().last_unwrapped() ==> final(self).model().last_unwrapped(),
    {
        let (col, row) = pos;
        let line = self.row_mut(row);
        line.print(col, cell);
    }

    pub fn wrap(&mut self, row: usize)
        requires
            old(self).wf(),
            row < old(self).model().rows,
        ensures
            final(self).wf(),
            final(self).model() == old(self).model().wrap(row as int),
            final(self).model().same_size(old(self).model()),
            old(self).model().last_unwrapped() && row + 1 < old(self).model().rows
                ==> final(self).model().last_unwrapped(),
    {
        let line = self.row_mut(row);
        line.wrapped = true;
    }

    pub fn insert(&mut self, pos: (usize, usize), n: usize, cell: Cell)
        requires
            old(self).wf(),
            pos.0 <= old(self).model().cols,
            pos.1 < old(self).model().rows,
        ensures
            final(self).wf(),
            final(self).model() == old(self).model().insert(
                pos.0 as int,
                pos.1 as int,
                n as int,
                cell,
            ),
            final(self).model().same_size(old(self).model()),
            old(self).model().last_unwrapped() ==> final(self).model().last_unwrapped(),
    {
        let (col, row) = pos;
        let n = if n < self.cols - col {
            n
        } else {
            self.cols - col
        };
        let line = self.row_mut(row);
        line.insert(col, n, cell);
    }

    pub fn delete(&mut self, pos: (usize, usize), n: usize, pen: &Pen)
        requires
            old(self).wf(),
            pos.0 <= old(self).model().cols,
            pos.1 < old(self).model().rows,
        ensures
            final(self).wf(),
            final(self).model() == old(self).model().delete(
                pos.0 as int,
                pos.1 as int,
                n as int,
                *pen,
            ),
            final(self).model().same_size(old(self).model()),
            old(self).model().last_unwrapped() ==> final(self).model().last_unwrapped(),
    {
        let (col, row) = pos;
        let n = if n < self.cols - col {
            n
        } else {
            self.cols - col
        };
        let line = self.row_mut(row);
        line.delete(col, n, pen);
        line.wrapped = false;
    }

    pub fn erase(&mut self, pos: (usize, usize), mode: EraseMode, pen: &Pen)
        requires
            old(self).wf(),
            pos.0 <= old(self).model().cols,
            pos.1 < old(self).model().rows,
        ensures
            final(self).wf(),
            final(self).model() == old(self).model().erase(
                pos.0 as int,
                pos.1 as int,
                mode,
                *pen,
            ),
            final(self).model().same_size(old(self).model()),
            old(self).model().last_unwrapped() ==> final(self).model().last_unwrapped(),
    {
        proof {
            reveal(BufferModel::erase);
        }
        let (col, row) = pos;
        let cols = self.cols;
        let rows = self.rows;
        match mode {
            EraseMode::NextChars(n) => {
                let n = if n < cols - col {
                    n
                } else {
                    cols - col
                };
                let end = col + n;
                let line = self.row_mut(row);
                line.clear(col..end, pen);
                if end == cols {
                    line.wrapped = false;
                }
            },
            EraseMode::FromCursorToEndOfView => {
                let line = self.row_mut(row);
                line.wrapped = false;
                line.clear(col..cols, pen);
                self.clear(row + 1..rows, pen);
            },
            EraseMode::FromStartOfViewToCursor => {
                let end = if col < cols {
                    col + 1
                } else {
                    cols
                };
                let line = self.row_mut(row);
                line.clear(0..end, pen);
                self.clear(0..row, pen);
            },
            EraseMode::WholeView => self.clear(0..rows, pen),
            EraseMode::FromCursorToEndOfLine => {
                let line = self.row_mut(row);
                line.clear(col..cols, pen);
                line.wrapped = false;
            },
            EraseMode::FromStartOfLineToCursor => {
                let end = if col < cols {
                    col + 1
                } else {
                    cols
                };
                let line = self.row_mut(row);
                line.clear(0..end, pen);
            },
            EraseMode::WholeLine => {
                let line = self.row_mut(row);
                line.clear(0..cols, pen);
                line.wrapped = false;
            },
        }
    }

    pub fn scroll_up(&mut self, range: Range<usize>, n: usize, pen: &Pen)
        requires
            old(self).wf(),
            range.start <= range.end,
            1 <= range.end <= old(self).model().rows,
        ensures
            final(self).wf(),
            final(self).model() == old(self).model().scroll_up(
                range.start as int,
                range.end as int,
                n as int,
                *pen,
            ),
            final(self).model().same_size(old(self).model()),
            old(self).model().last_unwrapped() || range.end == old(self).model().rows
                ==> final(self).model().last_unwrapped(),
    {
        proof {
            reveal(BufferModel::scroll_up);
        }
        let (start, end) = (range.start, range.end);
        let k = if n < end - start {
            n
        } else {
            end - start
        };
        if end < self.rows {
            self.unwrap(end - 1);
        }
        if start == 0 {
            self.push_up(end, k, pen);
        } else {
            self.unwrap(start - 1);
            self.rotate_up(start, end, k, pen);
        }
        self.unwrap(end - 1);
    }

    pub fn scroll_down(&mut self, range: Range<usize>, n: usize, pen: &Pen)
        requires
            old(self).wf(),
            range.start <= range.end,
            1 <= range.end <= old(self).model().rows,
        ensures
            final(self).wf(),
            final(self).model() == old(self).model().scroll_down(
                range.start as int,
                range.end as int,
                n as int,
                *pen,
            ),
            final(self).model().same_size(old(self).model()),
            old(self).model().last_unwrapped() ==> final(self).model().last_unwrapped(),
    {
        proof {
            reveal(BufferModel::scroll_down);
        }
        let (start, end) = (range.start, range.end);
        let k = if n < end - start {
            n
        } else {
            end - start
        };
        self.rotate_down(start, end, k, pen);
        if start > 0 {
            self.unwrap(start - 1);
        }
        self.unwrap(end - 1);
    }

    /// Makes the buffer `cols` wide and `rows` high, and returns where the
    /// position `cursor` has come to lie.
    pub fn resize(&mut self, cols: usize, rows: usize, cursor: (usize, usize)) -> (r: (
        usize,
        usize,
    ))
        requires
            old(self).wf(),
            cols >= 1,
            rows >= 1,
            cursor.0 <= old(self).model().cols,
            cursor.1 < old(self).model().rows,
        ensures
            final(self).wf(),
            final(self).model() == old(self).model().resize(
                cols as nat,
                rows as nat,
                (cursor.0 as int, cursor.1 as int),
            ).0,
            (r.0 as int, r.1 as int) == old(self).model().resize(
                cols as nat,
                rows as nat,
                (cursor.0 as int, cursor.1 as int),
            ).1,
            final(self).model().cols == cols,
            final(self).model().rows == rows,
            r.0 <= cols,
            r.1 < rows,
            old(self).model().last_unwrapped() ==> final(self).model().last_unwrapped(),
    {
        let moved = if cols != self.cols {
            self.resize_cols(cols, cursor)
        } else {
            cursor
        };
        self.resize_rows(rows, moved)
    }

    /// Lays the buffer out anew at the width `cols`.
    fn resize_cols(&mut self, cols: usize, cursor: (usize, usize)) -> (r: (usize, usize))
        requires
            old(self).wf(),
            cols >= 1,
            cursor.1 < old(self).model().rows,
        ensures
            final(self).wf(),
            final(self).model() == old(self).model().resize_cols(
                cols as nat,
                (cursor.0 as int, cursor.1 as int),
            ).0,
            (r.0 as int, r.1 as int) == old(self).model().resize_cols(
                cols as nat,
                (cursor.0 as int, cursor.1 as int),
            ).1,
            final(self).model().cols == cols,
            r.0 < cols,
            r.1 < final(self).model().rows,
            final(self).model().last_unwrapped(),
    {
        proof {
            reveal(BufferModel::resize_cols);
            lemma_flow_is_laid_out(self.model().lines, cols as int);
        }
        let ghost flowed = reflow(self.model().lines, cols as int);
        let at = self.lines.len() - self.rows + cursor.1;
        let (mut lines, start_row, pending_len) = reflow_lines(&self.lines, cols, at);
        let mut row: usize = start_row;
        let mut col: u128 = pending_len as u128 + cursor.0 as u128;
        while col >= cols as u128 && row < lines.len() && lines[row].wrapped
            invariant
                cols >= 1,
                views(lines@) == flowed,
                advance(flowed, row as int, col as int, cols as int) == advance(
                    flowed,
                    start_row as int,
                    pending_len + cursor.0,
                    cols as int,
                ),
            decreases col,
        {
            assert(flowed[row as int] == lines@[row as int]@);
            col = col - cols as u128;
            row = row + 1;
        }
        assert(row < lines@.len() ==> flowed[row as int] == lines@[row as int]@);
        while lines.len() < self.rows
            invariant
                cols >= 1,
                flowed.len() <= lines@.len() <= self.rows || lines@.len() == flowed.len(),
                views(lines@) == flowed + blank_lines(
                    cols as nat,
                    lines@.len() - flowed.len(),
                ),
            decreases self.rows - lines@.len(),
        {
            let ghost before = views(lines@);
            let ghost n = lines@.len() - flowed.len();
            lines.push(Line::blank(cols, &Pen::default()));
            proof {
                let blank = LineView::blank(cols as nat, Pen::default_pen());
                assert(views(lines@) =~= before.push(blank));
                assert(blank_lines(cols as nat, n + 1) =~= blank_lines(
                    cols as nat,
                    n,
                ).push(blank));
                assert(before.push(blank) =~= flowed + blank_lines(cols as nat, n + 1));
            }
        }
        assert(flowed + blank_lines(cols as nat, 0) =~= flowed);
        let row = if row < lines.len() - 1 {
            row
        } else {
            lines.len() - 1
        };
        let col = if col < cols as u128 {
            col as usize
        } else {
            cols - 1
        };
        let top = lines.len() - self.rows;
        proof {
            let all = views(lines@);
            assert forall|i: int| 0 <= i < all.len() implies (#[trigger] all[i]).cells.len()
                == cols by {
                if i < flowed.len() {
                    assert(all[i] == flowed[i]);
                }
            }
            if all.len() == flowed.len() {
                assert(all.last() == flowed.last());
            }
        }
        self.cols = cols;
        self.lines = lines;
        if row >= top {
            (col, row - top)
        } else {
            self.rows = self.lines.len() - row;
            (col, 0)
        }
    }

    /// Gives the buffer `rows` visible rows.
    fn resize_rows(&mut self, rows: usize, cursor: (usize, usize)) -> (r: (usize, usize))
        requires
            old(self).wf(),
            rows >= 1,
            cursor.1 < old(self).model().rows,
        ensures
            final(self).wf(),
            final(self).model() == old(self).model().resize_rows(
                rows as nat,
                (cursor.0 as int, cursor.1 as int),
            ).0,
            (r.0 as int, r.1 as int) == old(self).model().resize_rows(
                rows as nat,
                (cursor.0 as int, cursor.1 as int),
            ).1,
            final(self).model().cols == old(self).model().cols,
            final(self).model().rows == rows,
            r.0 == cursor.0,
            r.1 < rows,
            old(self).model().last_unwrapped() ==> final(self).model().last_unwrapped(),
    {
        proof {
            reveal(BufferModel::resize_rows);
        }
        let ghost before = self.model();
        if rows < self.rows {
            let delta = self.rows - rows;
            let below = self.rows - 1 - cursor.1;
            let excess = if delta < below {
                delta
            } else {
                below
            };
            self.lines.truncate(self.lines.len() - excess);
            self.rows = rows;
            assert(self.model().lines =~= before.lines.take(before.lines.len() - excess));
            assert forall|i: int| 0 <= i < self.model().lines.len() implies (
            #[trigger] self.model().lines[i]).cells.len() == self.cols by {
                assert(self.model().lines[i] == before.lines[i]);
            }
            if excess > 0 {
                self.unwrap(rows - 1);
            }
            (cursor.0, cursor.1 - (delta - excess))
        } else {
            let delta = rows - self.rows;
            let scrollback = self.lines.len() - self.rows;
            let shift = if scrollback < delta {
                scrollback
            } else {
                delta
            };
            let mut k: usize = 0;
            assert(before.lines + blank_lines(self.cols as nat, 0) =~= before.lines);
            while k < delta - shift
                invariant
                    k <= delta - shift,
                    self.cols == before.cols,
                    self.rows == before.rows,
                    views(self.lines@) == before.lines + blank_lines(
                        self.cols as nat,
                        k as int,
                    ),
                decreases delta - shift - k,
            {
                let ghost so_far = views(self.lines@);
                self.lines.push(Line::blank(self.cols, &Pen::default()));
                proof {
                    let blank = LineView::blank(self.cols as nat, Pen::default_pen());
                    assert(views(self.lines@) =~= so_far.push(blank));
                    assert(blank_lines(self.cols as nat, k + 1) =~= blank_lines(
                        self.cols as nat,
                        k as int,
                    ).push(blank));
                    assert(so_far.push(blank) =~= before.lines + blank_lines(
                        self.cols as nat,
                        k + 1,
                    ));
                }
                k = k + 1;
            }
            self.rows = rows;
            proof {
                let all = self.model().lines;
                assert forall|i: int| 0 <= i < all.len() implies (#[trigger] all[i]).cells.len()
                    == self.cols by {
                    if i < before.lines.len() {
                        assert(all[i] == before.lines[i]);
                    }
                }
                if delta - shift == 0 {
                    assert(all.last() == before.lines.last());
                }
            }
            (cursor.0, cursor.1 + shift)
        }
    }

    /// Puts `cell` in every position of the visible rows.
    pub fn fill(&mut self, cell: Cell)
        requires
            old(self).wf(),
        ensures
            final(self).wf(),
            final(self).model() == old(self).model().fill(cell),
            final(self).model().same_size(old(self).model()),
            old(self).model().last_unwrapped() ==> final(self).model().last_unwrapped(),
    {
        proof {
            reveal(BufferModel::fill);
        }
        let offset = self.lines.len() - self.rows;
        let mut r: usize = offset;
        assert forall|i: int| 0 <= i < self.lines@.len() implies (#[trigger] self.lines@[i])@.cells.len()
            == self.cols by {
            assert(self.model().lines[i].cells.len() == self.cols);
        }
        while r < self.lines.len()
            invariant
                offset <= r <= self.lines@.len(),
                self.cols == old(self).cols,
                self.rows == old(self).rows,
                self.lines@.len() == old(self).lines@.len(),
                offset == self.lines@.len() - self.rows,
                forall|i: int|
                    0 <= i < self.lines@.len() ==> (#[trigger] self.lines@[i])@ == if offset <= i
                        < r {
                        LineView {
                            cells: Seq::new(self.cols as nat, |c: int| cell),
                            ..old(self).lines@[i]@
                        }
                    } else {
                        old(self).lines@[i]@
                    },
                forall|i: int|
                    0 <= i < self.lines@.len() ==> (#[trigger] self.lines@[i])@.cells.len()
                        == self.cols,
            decreases self.lines@.len() - r,
        {
            let line = &mut self.lines[r];
            let ghost before = line@;
            let mut c: usize = 0;
            while c < self.cols
                invariant
                    c <= self.cols,
                    line@.cells.len() == self.cols,
                    line@.wrapped == before.wrapped,
                    forall|j: int| 0 <= j < c ==> line@.cells[j] == cell,
                decreases self.cols - c,
            {
                line.print(c, cell);
                c = c + 1;
            }
            assert(line@.cells =~= Seq::new(self.cols as nat, |c: int| cell));
            r = r + 1;
        }
        assert(self.model().lines =~= old(self).model().fill(cell).lines);
    }

    /// Pushes `k` blank lines of `pen` in below the visible row `end - 1`.
    fn push_up(&mut self, end: usize, k: usize, pen: &Pen)
        requires
            old(self).wf(),
            end <= old(self).model().rows,
        ensures
            final(self).wf(),
            final(self).model() == old(self).model().push_up(end as int, k as int, *pen),
    {
        let ghost before = self.model();
        let index = self.lines.len() - self.rows + end;
        let mut j: usize = 0;
        while j < k
            invariant
                j <= k,
                self.cols == before.cols,
                self.rows == before.rows,
                index == before.scrollback() + end,
                index <= before.lines.len(),
                self.lines@.len() == before.lines.len() + j,
                forall|i: int| 0 <= i < index ==> (#[trigger] self.lines@[i])@ == before.lines[i],
                forall|i: int|
                    index <= i < index + j ==> (#[trigger] self.lines@[i])@ == LineView::blank(
                        before.cols,
                        *pen,
                    ),
                forall|i: int|
                    index + j <= i < self.lines@.len() ==> (#[trigger] self.lines@[i])@
                        == before.lines[i - j],
            decreases k - j,
        {
            self.lines.insert(index, Line::blank(self.cols, pen));
            j = j + 1;
        }
        assert(self.model().lines =~= before.push_up(end as int, k as int, *pen).lines);
    }

    /// Moves the visible rows from `start` up to, not including, `end` up by
    /// `k`, with blank lines of `pen` at the end of the range.
    fn rotate_up(&mut self, start: usize, end: usize, k: usize, pen: &Pen)
        requires
            old(self).wf(),
            start + k <= end <= old(self).model().rows,
        ensures
            final(self).wf(),
            final(self).model() == old(self).model().rotate_up(
                start as int,
                end as int,
                k as int,
                *pen,
            ),
    {
        let ghost before = self.model();
        let offset = self.lines.len() - self.rows;
        let mut j: usize = 0;
        while j < k
            invariant
                j <= k,
                start + k <= end <= self.rows,
                self.cols == before.cols,
                self.rows == before.rows,
                offset == before.scrollback(),
                self.rows <= self.lines@.len() <= usize::MAX,
                self.lines@.len() == before.lines.len(),
                forall|i: int|
                    0 <= i < self.lines@.len() ==> (#[trigger] self.lines@[i])@ == if start <= i
                        - offset < end - j {
                        before.lines[i + j]
                    } else if end - j <= i - offset < end {
                        LineView::blank(before.cols, *pen)
                    } else {
                        before.lines[i]
                    },
            decreases k - j,
        {
            self.lines.remove(offset + start);
            self.lines.insert(offset + end - 1, Line::blank(self.cols, pen));
            j = j + 1;
        }
        assert(self.model().lines =~= before.rotate_up(
            start as int,
            end as int,
            k as int,
            *pen,
        ).lines);
    }

    /// Moves the visible rows from `start` up to, not including, `end` down
    /// by `k`, with blank lines of `pen` at the start of the range.
    fn rotate_down(&mut self, start: usize, end: usize, k: usize, pen: &Pen)
        requires
            old(self).wf(),
            start + k <= end <= old(self).model().rows,
        ensures
            final(self).wf(),
            final(self).model() == old(self).model().rotate_down(
                start as int,
                end as int,
                k as int,
                *pen,
            ),
    {
        let ghost before = self.model();
        let offset = self.lines.len() - self.rows;
        let mut j: usize = 0;
        while j < k
            invariant
                j <= k,
                start + k <= end <= self.rows,
                self.cols == before.cols,
                self.rows == before.rows,
                offset == before.scrollback(),
                self.rows <= self.lines@.len() <= usize::MAX,
                self.lines@.len() == before.lines.len(),
                forall|i: int|
                    0 <= i < self.lines@.len() ==> (#[trigger] self.lines@[i])@ == if start <= i
                        - offset < start + j {
                        LineView::blank(before.cols, *pen)
                    } else if start + j <= i - offset < end {
                        before.lines[i - j]
                    } else {
                        before.lines[i]
                    },
            decreases k - j,
        {
            self.lines.remove(offset + end - 1);
            self.lines.insert(offset + start, Line::blank(self.cols, pen));
            j = j + 1;
        }
        assert(self.model().lines =~= before.rotate_down(
            start as int,
            end as int,
            k as int,
            *pen,
        ).lines);
    }

    /// Stops the visible row `row` from running on into the next.
    fn unwrap(&mut self, row: usize)
        requires
            old(self).wf(),
            row < old(self).model().rows,
        ensures
            final(self).wf(),
            final(self).model() == old(self).model().unwrap(row as int),
    {
        let line = self.row_mut(row);
        line.wrapped = false;
    }

    /// Puts blank lines of `pen` in place of the visible rows of `range`.
    fn clear(&mut self, range: Range<usize>, pen: &Pen)
        requires
            old(self).wf(),
            range.start <= range.end <= old(self).model().rows,
        ensures
            final(self).wf(),
            final(self).model() == old(self).model().clear(
                range.start as int,
                range.end as int,
                *pen,
            ),
    {
        let offset = self.lines.len() - self.rows;
        let mut r: usize = range.start;
        while r < range.end
            invariant
                range.start <= r <= range.end <= self.rows,
                self.cols == old(self).cols,
                self.rows == old(self).rows,
                self.lines@.len() == old(self).lines@.len(),
                self.rows <= self.lines@.len() <= usize::MAX,
                offset == self.lines@.len() - self.rows,
                forall|i: int|
                    0 <= i < self.lines@.len() ==> (#[trigger] self.lines@[i])@ == if range.start
                        <= i - offset < r {
                        LineView::blank(self.cols as nat, *pen)
                    } else {
                        old(self).lines@[i]@
                    },
            decreases range.end - r,
        {
            self.lines[offset + r] = Line::blank(self.cols, pen);
            r = r + 1;
        }
        assert(self.model().lines =~= old(self).model().clear(
            range.start as int,
            range.end as int,
            *pen,
        ).lines);
    }

    pub fn view(&self) -> (r: &[Line])
        requires
            self.wf(),
        ensures
            r@.len() == self.model().rows,
            forall|i: int| 0 <= i < r@.len() ==> (#[trigger] r@[i])@ == self.model().row(i),
    {
        &self.lines[self.lines.len() - self.rows..self.lines.len()]
    }

    fn row_mut(&mut self, row: usize) -> (line: &mut Line)
        requires
            old(self).wf(),
            row < old(self).model().rows,
        ensures
            line@ == old(self).model().row(row as int),
            final(self).model() =~= old(self).model().with_row(row as int, final(line)@),
    {
        let index = self.lines.len() - self.rows + row;
        &mut self.lines[index]
    }
}

} // verus!
