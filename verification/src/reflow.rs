use crate::cell::Cell;
use crate::line::{Line, LineView};
use crate::pen::Pen;
use vstd::prelude::*;

verus! {

/// The values of the lines.
pub open spec fn views(lines: Seq<Line>) -> Seq<LineView> {
    Seq::new(lines.len(), |i: int| lines[i]@)
}

/// The cells without the default cells at their end.
pub open spec fn trimmed(cells: Seq<Cell>) -> Seq<Cell>
    decreases cells.len(),
{
    if cells.len() > 0 && cells.last().is_default() {
        trimmed(cells.drop_last())
    } else {
        cells
    }
}

/// The cell at `index`, or a blank of the default pen past the end.
pub open spec fn cell_at(cells: Seq<Cell>, index: int) -> Cell {
    if 0 <= index < cells.len() {
        cells[index]
    } else {
        Cell::blank_of(Pen::default_pen())
    }
}

/// The `cols` cells from `start` on, with blanks of the default pen past
/// the end.
pub open spec fn window(cells: Seq<Cell>, cols: int, start: int) -> Seq<Cell> {
    Seq::new(cols as nat, |j: int| cell_at(cells, start + j))
}

/// The cells from `start` on as rows `cols` wide: each row but the last
/// runs on, and the last is filled up with blanks of the default pen. Even
/// no cells make one row.
pub open spec fn split_from(cells: Seq<Cell>, cols: int, start: int) -> Seq<LineView>
    decreases cells.len() - start,
    when cols > 0
{
    if cells.len() - start > cols {
        seq![LineView { cells: window(cells, cols, start), wrapped: true }] + split_from(
            cells,
            cols,
            start + cols,
        )
    } else {
        seq![LineView { cells: window(cells, cols, start), wrapped: false }]
    }
}

/// The cells as rows `cols` wide.
pub open spec fn split(cells: Seq<Cell>, cols: int) -> Seq<LineView> {
    split_from(cells, cols, 0)
}

/// `n` blank lines of the default pen, `cols` wide.
pub open spec fn blank_lines(cols: nat, n: int) -> Seq<LineView> {
    Seq::new(n as nat, |i: int| LineView::blank(cols, Pen::default_pen()))
}

/// `n` logical lines without a cell.
pub open spec fn empty_lines(n: int) -> Seq<Seq<Cell>> {
    Seq::new(n as nat, |i: int| Seq::<Cell>::empty())
}

/// How far a reflow has come: the rows laid out so far, and the cells of
/// the rows that run on into what comes next.
pub struct Flow {
    pub rows: Seq<LineView>,
    pub pending: Seq<Cell>,
}

impl Flow {
    /// Nothing laid out and nothing pending.
    pub open spec fn start() -> Flow {
        Flow { rows: Seq::empty(), pending: Seq::empty() }
    }

    /// After one more line. A line that runs on adds its cells to the
    /// pending ones. Any other line ends a logical line: the pending cells
    /// and its own, without the default cells at its end, are laid out as
    /// rows `cols` wide.
    pub open spec fn step(self, line: LineView, cols: int) -> Flow {
        if line.wrapped {
            Flow { pending: self.pending + line.cells, ..self }
        } else {
            Flow {
                rows: self.rows + split(self.pending + trimmed(line.cells), cols),
                pending: Seq::empty(),
            }
        }
    }

    /// After the lines, one after the other.
    pub open spec fn over(self, lines: Seq<LineView>, cols: int) -> Flow
        decreases lines.len(),
    {
        if lines.len() == 0 {
            self
        } else {
            self.over(lines.drop_last(), cols).step(lines.last(), cols)
        }
    }

    /// The rows laid out, with the pending cells, if any, as the last of them.
    pub open spec fn finish(self, cols: int) -> Seq<LineView> {
        if self.pending.len() > 0 {
            self.rows + split(self.pending, cols)
        } else {
            self.rows
        }
    }
}

/// The lines laid out anew at the width `cols`: each run of lines that run
/// on, together with the line that ends it, is one logical line; it loses
/// the default cells at the end of its last line and is cut into rows
/// `cols` wide.
pub open spec fn reflow(lines: Seq<LineView>, cols: int) -> Seq<LineView> {
    Flow::start().over(lines, cols).finish(cols)
}

/// Where a position that lies `col` cells into the logical line that starts
/// at the row `row` comes to lie: as many rows further down as `col` holds
/// whole rows, as long as the rows run on.
pub open spec fn advance(lines: Seq<LineView>, row: int, col: int, cols: int) -> (int, int)
    decreases col,
    when cols > 0
{
    if col >= cols && 0 <= row < lines.len() && lines[row].wrapped {
        advance(lines, row + 1, col - cols, cols)
    } else {
        (row, col)
    }
}

/// A position moves down and stays to the right of the first column.
pub proof fn lemma_advance_bounds(lines: Seq<LineView>, row: int, col: int, cols: int)
    requires
        cols > 0,
        col >= 0,
    ensures
        advance(lines, row, col, cols).0 >= row,
        advance(lines, row, col, cols).1 >= 0,
    decreases col,
{
    if col >= cols && 0 <= row < lines.len() && lines[row].wrapped {
        lemma_advance_bounds(lines, row + 1, col - cols, cols);
    }
}

/// How much of a text has been read: the logical lines that are complete,
/// and the cells of the lines that run on into what comes next.
pub struct Text {
    pub done: Seq<Seq<Cell>>,
    pub pending: Seq<Cell>,
}

impl Text {
    /// Nothing read.
    pub open spec fn start() -> Text {
        Text { done: Seq::empty(), pending: Seq::empty() }
    }

    /// After one more line.
    pub open spec fn step(self, line: LineView) -> Text {
        if line.wrapped {
            Text { pending: self.pending + line.cells, ..self }
        } else {
            Text {
                done: self.done.push(trimmed(self.pending + line.cells)),
                pending: Seq::empty(),
            }
        }
    }

    /// After the lines, one after the other.
    pub open spec fn over(self, lines: Seq<LineView>) -> Text
        decreases lines.len(),
    {
        if lines.len() == 0 {
            self
        } else {
            self.over(lines.drop_last()).step(lines.last())
        }
    }

    /// The logical lines read, with the pending cells, if any, as the last
    /// of them.
    pub open spec fn finish(self) -> Seq<Seq<Cell>> {
        if self.pending.len() > 0 {
            self.done.push(trimmed(self.pending))
        } else {
            self.done
        }
    }
}

/// The logical lines of a text: the cells of each run of lines that run on
/// and of the line that ends it, without the default cells at the end.
pub open spec fn logical_text(lines: Seq<LineView>) -> Seq<Seq<Cell>> {
    Text::start().over(lines).finish()
}

/// The rows that a split gives are `cols` wide, there is at least one, and
/// the last of them does not run on.
pub proof fn lemma_split_rows(cells: Seq<Cell>, cols: int, start: int)
    requires
        cols > 0,
    ensures
        split_from(cells, cols, start).len() >= 1,
        !split_from(cells, cols, start).last().wrapped,
        forall|k: int|
            0 <= k < split_from(cells, cols, start).len() ==> (#[trigger] split_from(
                cells,
                cols,
                start,
            )[k]).cells.len() == cols,
    decreases cells.len() - start,
{
    if cells.len() - start > cols {
        lemma_split_rows(cells, cols, start + cols);
    }
}

/// Every row is `cols` wide, and the last row, if there is one, does not run on.
pub open spec fn laid_out(rows: Seq<LineView>, cols: int) -> bool {
    &&& forall|k: int| 0 <= k < rows.len() ==> (#[trigger] rows[k]).cells.len() == cols
    &&& rows.len() > 0 ==> !rows.last().wrapped
}

/// Rows that are laid out, followed by the rows of a split, are laid out.
pub proof fn lemma_laid_out_with_split(rows: Seq<LineView>, cells: Seq<Cell>, cols: int)
    requires
        cols > 0,
        laid_out(rows, cols),
    ensures
        laid_out(rows + split(cells, cols), cols),
        (rows + split(cells, cols)).len() > rows.len(),
{
    lemma_split_rows(cells, cols, 0);
    let more = split(cells, cols);
    let all = rows + more;
    assert forall|k: int| 0 <= k < all.len() implies (#[trigger] all[k]).cells.len() == cols by {
        if k >= rows.len() {
            assert(all[k] == more[k - rows.len()]);
        }
    }
    assert(all.last() == more.last());
}

/// The rows that a reflow has laid out are `cols` wide at every step, and
/// the last of them does not run on.
pub proof fn lemma_flow_is_laid_out(lines: Seq<LineView>, cols: int)
    requires
        cols > 0,
    ensures
        laid_out(Flow::start().over(lines, cols).rows, cols),
        laid_out(reflow(lines, cols), cols),
    decreases lines.len(),
{
    if lines.len() > 0 {
        lemma_flow_is_laid_out(lines.drop_last(), cols);
        let before = Flow::start().over(lines.drop_last(), cols);
        if !lines.last().wrapped {
            lemma_laid_out_with_split(
                before.rows,
                before.pending + trimmed(lines.last().cells),
                cols,
            );
        }
    }
    let flow = Flow::start().over(lines, cols);
    if flow.pending.len() > 0 {
        lemma_laid_out_with_split(flow.rows, flow.pending, cols);
    }
}

/// Default cells at the end do not change what is left after trimming.
pub proof fn lemma_trimmed_ignores_padding(cells: Seq<Cell>, padding: Seq<Cell>)
    requires
        forall|i: int| 0 <= i < padding.len() ==> (#[trigger] padding[i]).is_default(),
    ensures
        trimmed(cells + padding) == trimmed(cells),
    decreases padding.len(),
{
    if padding.len() == 0 {
        assert(cells + padding =~= cells);
    } else {
        assert((cells + padding).last() == padding.last());
        assert((cells + padding).drop_last() =~= cells + padding.drop_last());
        lemma_trimmed_ignores_padding(cells, padding.drop_last());
    }
}

/// Trimming takes away only default cells, and only at the end.
pub proof fn lemma_trimmed_is_a_prefix(cells: Seq<Cell>) -> (len: int)
    ensures
        0 <= len <= cells.len(),
        trimmed(cells) == cells.take(len),
        forall|i: int| len <= i < cells.len() ==> (#[trigger] cells[i]).is_default(),
    decreases cells.len(),
{
    if cells.len() > 0 && cells.last().is_default() {
        let front = cells.drop_last();
        let len = lemma_trimmed_is_a_prefix(front);
        assert(front.take(len) =~= cells.take(len));
        assert forall|i: int| len <= i < cells.len() implies (#[trigger] cells[i]).is_default() by {
            if i < front.len() {
                assert(cells[i] == front[i]);
            }
        }
        len
    } else {
        assert(cells.take(cells.len() as int) =~= cells);
        cells.len() as int
    }
}

/// Whether the end of a line is trimmed before or after it is joined to
/// what comes before it makes no difference to the trimmed whole.
pub proof fn lemma_trimmed_tail(head: Seq<Cell>, tail: Seq<Cell>)
    ensures
        trimmed(head + trimmed(tail)) == trimmed(head + tail),
{
    let len = lemma_trimmed_is_a_prefix(tail);
    let rest = tail.skip(len);
    assert((head + tail.take(len)) + rest =~= head + tail);
    lemma_trimmed_ignores_padding(head + tail.take(len), rest);
    lemma_trimmed_ignores_padding(head + trimmed(tail), Seq::empty());
}

/// Reading one run of lines and then another is reading the two joined.
pub proof fn lemma_text_over_joined(text: Text, first: Seq<LineView>, second: Seq<LineView>)
    ensures
        text.over(first + second) == text.over(first).over(second),
    decreases second.len(),
{
    if second.len() == 0 {
        assert(first + second =~= first);
    } else {
        lemma_text_over_joined(text, first, second.drop_last());
        assert((first + second).drop_last() =~= first + second.drop_last());
        assert((first + second).last() == second.last());
    }
}

/// Reading a line and then more lines.
pub proof fn lemma_text_over_first(text: Text, line: LineView, rest: Seq<LineView>)
    ensures
        text.over(seq![line] + rest) == text.step(line).over(rest),
{
    let one = seq![line];
    assert(one.drop_last() =~= Seq::<LineView>::empty());
    assert(one.last() == line);
    assert(text.over(one.drop_last()) == text);
    lemma_text_over_joined(text, one, rest);
}

/// Reading the rows of a split gives back the cells that were split, as
/// the end of one logical line.
pub proof fn lemma_text_over_split(text: Text, cells: Seq<Cell>, cols: int, start: int)
    requires
        cols > 0,
        0 <= start <= cells.len(),
    ensures
        text.over(split_from(cells, cols, start)) == (Text {
            done: text.done.push(trimmed(text.pending + cells.skip(start))),
            pending: Seq::empty(),
        }),
    decreases cells.len() - start,
{
    let row = window(cells, cols, start);
    if cells.len() - start > cols {
        let line = LineView { cells: row, wrapped: true };
        let rest = split_from(cells, cols, start + cols);
        lemma_text_over_first(text, line, rest);
        lemma_text_over_split(text.step(line), cells, cols, start + cols);
        assert(row =~= cells.subrange(start, start + cols));
        assert((text.pending + row) + cells.skip(start + cols) =~= text.pending + cells.skip(
            start,
        ));
    } else {
        let line = LineView { cells: row, wrapped: false };
        lemma_text_over_first(text, line, Seq::empty());
        assert(seq![line] + Seq::<LineView>::empty() =~= seq![line]);
        let padding = Seq::new(
            (cols - (cells.len() - start)) as nat,
            |i: int| Cell::blank_of(Pen::default_pen()),
        );
        assert(row =~= cells.skip(start) + padding);
        assert(text.pending + row =~= (text.pending + cells.skip(start)) + padding);
        assert(Cell::blank_of(Pen::default_pen()).is_default()) by {
            assert(0u8 & 1u8 == 0u8 && 0u8 & 2u8 == 0u8 && 0u8 & 4u8 == 0u8 && 0u8 & 8u8 == 0u8
                && 0u8 & 16u8 == 0u8) by (bit_vector);
        }
        lemma_trimmed_ignores_padding(text.pending + cells.skip(start), padding);
    }
}

/// At every step of a reflow, the rows laid out so far read as the logical
/// lines that were complete in the lines, and the same cells are pending.
pub proof fn lemma_flow_keeps_text(lines: Seq<LineView>, cols: int)
    requires
        cols > 0,
    ensures
        Text::start().over(Flow::start().over(lines, cols).rows) == (Text {
            done: Text::start().over(lines).done,
            pending: Seq::empty(),
        }),
        Flow::start().over(lines, cols).pending == Text::start().over(lines).pending,
    decreases lines.len(),
{
    if lines.len() > 0 {
        let front = lines.drop_last();
        let line = lines.last();
        lemma_flow_keeps_text(front, cols);
        let flow = Flow::start().over(front, cols);
        let text = Text::start().over(front);
        if !line.wrapped {
            let cells = flow.pending + trimmed(line.cells);
            lemma_text_over_joined(Text::start(), flow.rows, split(cells, cols));
            lemma_text_over_split(Text::start().over(flow.rows), cells, cols, 0);
            assert(cells.skip(0) =~= cells);
            assert(Seq::<Cell>::empty() + cells =~= cells);
            lemma_trimmed_tail(flow.pending, line.cells);
        }
    }
}

/// A reflow keeps the text: the lines laid out anew hold the same logical
/// lines, up to default cells at their ends, as the lines did before.
pub proof fn lemma_reflow_keeps_text(lines: Seq<LineView>, cols: int)
    requires
        cols > 0,
    ensures
        logical_text(reflow(lines, cols)) == logical_text(lines),
        Text::start().over(reflow(lines, cols)).pending.len() == 0,
{
    lemma_flow_keeps_text(lines, cols);
    let flow = Flow::start().over(lines, cols);
    if flow.pending.len() > 0 {
        lemma_text_over_joined(Text::start(), flow.rows, split(flow.pending, cols));
        lemma_text_over_split(Text::start().over(flow.rows), flow.pending, cols, 0);
        assert(flow.pending.skip(0) =~= flow.pending);
        assert(Seq::<Cell>::empty() + flow.pending =~= flow.pending);
    }
}

/// Blank lines after a text that does not run on add one empty logical
/// line each.
pub proof fn lemma_text_with_blank_lines(lines: Seq<LineView>, cols: nat, n: int)
    requires
        n >= 0,
        Text::start().over(lines).pending.len() == 0,
    ensures
        Text::start().over(lines + blank_lines(cols, n)).pending.len() == 0,
        logical_text(lines + blank_lines(cols, n)) == logical_text(lines) + empty_lines(n),
    decreases n,
{
    let blanks = blank_lines(cols, n);
    let empties = empty_lines(n);
    if n == 0 {
        assert(lines + blanks =~= lines);
        assert(logical_text(lines) + empties =~= logical_text(lines));
    } else {
        let fewer = blank_lines(cols, n - 1);
        lemma_text_with_blank_lines(lines, cols, n - 1);
        assert((lines + blanks).drop_last() =~= lines + fewer);
        let blank = LineView::blank(cols, Pen::default_pen());
        assert((lines + blanks).last() == blank);
        assert(Cell::blank_of(Pen::default_pen()).is_default()) by {
            assert(0u8 & 1u8 == 0u8 && 0u8 & 2u8 == 0u8 && 0u8 & 4u8 == 0u8 && 0u8 & 8u8 == 0u8
                && 0u8 & 16u8 == 0u8) by (bit_vector);
        }
        lemma_trimmed_ignores_padding(Seq::empty(), blank.cells);
        assert(Seq::<Cell>::empty() + blank.cells =~= blank.cells);
        let before = Text::start().over(lines + fewer);
        assert(before.pending =~= Seq::<Cell>::empty());
        assert(before.pending + blank.cells =~= blank.cells);
        assert(trimmed(Seq::<Cell>::empty()) =~= Seq::<Cell>::empty());
        assert((logical_text(lines) + empty_lines(n - 1)).push(Seq::<Cell>::empty())
            =~= logical_text(lines) + empties);
    }
}

/// How many of the cells are left when the default cells at the end are
/// taken away.
pub fn trimmed_len(cells: &Vec<Cell>) -> (len: usize)
    ensures
        len <= cells@.len(),
        cells@.take(len as int) == trimmed(cells@),
{
    let mut len = cells.len();
    assert(cells@.take(len as int) =~= cells@);
    while len > 0 && cells[len - 1].ch == ' ' && cells[len - 1].pen.is_default()
        invariant
            len <= cells@.len(),
            trimmed(cells@.take(len as int)) == trimmed(cells@),
        decreases len,
    {
        assert(cells@.take(len as int).drop_last() =~= cells@.take(len - 1));
        len = len - 1;
    }
    len
}

/// Adds the cells from `start` on to `rows`, as rows `cols` wide.
pub fn push_split(rows: &mut Vec<Line>, cells: &Vec<Cell>, cols: usize)
    requires
        cols > 0,
    ensures
        views(final(rows)@) == views(old(rows)@) + split(cells@, cols as int),
{
    let len = cells.len();
    let mut start: usize = 0;
    loop
        invariant_except_break
            cols > 0,
            len == cells@.len(),
            start <= len,
            views(rows@) + split_from(cells@, cols as int, start as int) == views(old(rows)@)
                + split(cells@, cols as int),
        ensures
            views(rows@) == views(old(rows)@) + split(cells@, cols as int),
        decreases len - start,
    {
        let mut row: Vec<Cell> = Vec::new();
        let mut j: usize = 0;
        while j < cols
            invariant
                j <= cols,
                start <= len,
                len == cells@.len(),
                row@.len() == j,
                forall|k: int| 0 <= k < j ==> row@[k] == cell_at(cells@, start + k),
            decreases cols - j,
        {
            if j < len - start {
                row.push(cells[start + j]);
            } else {
                row.push(Cell::blank(Pen::default()));
            }
            j = j + 1;
        }
        assert(row@ =~= window(cells@, cols as int, start as int));
        let more = len - start > cols;
        let ghost before = views(rows@);
        let mut line = Line::new(row);
        line.wrapped = more;
        rows.push(line);
        assert(views(rows@) =~= before + seq![
            LineView { cells: window(cells@, cols as int, start as int), wrapped: more },
        ]);
        if !more {
            assert(views(rows@) =~= before + split_from(cells@, cols as int, start as int));
            break ;
        }
        proof {
            let first = seq![
                LineView { cells: window(cells@, cols as int, start as int), wrapped: true },
            ];
            let rest = split_from(cells@, cols as int, start + cols);
            assert((before + first) + rest =~= before + (first + rest));
        }
        start = start + cols;
    }
}

/// Lays the lines out anew at the width `cols`. Also tells how far the
/// reflow had come when it reached the line `mark`: how many rows were laid
/// out and how many cells were pending.
pub fn reflow_lines(lines: &Vec<Line>, cols: usize, mark: usize) -> (r: (Vec<Line>, usize, usize))
    requires
        cols > 0,
        mark <= lines@.len(),
    ensures
        views(r.0@) == reflow(views(lines@), cols as int),
        r.1 == Flow::start().over(views(lines@).take(mark as int), cols as int).rows.len(),
        r.2 == Flow::start().over(views(lines@).take(mark as int), cols as int).pending.len(),
{
    let ghost all = views(lines@);
    let mut rows: Vec<Line> = Vec::new();
    let mut pending: Vec<Cell> = Vec::new();
    let mut rows_at_mark: usize = 0;
    let mut pending_at_mark: usize = 0;
    let mut i: usize = 0;
    assert(views(rows@) =~= Flow::start().rows);
    while i < lines.len()
        invariant
            cols > 0,
            i <= lines@.len(),
            mark <= lines@.len(),
            all == views(lines@),
            views(rows@) == Flow::start().over(all.take(i as int), cols as int).rows,
            pending@ == Flow::start().over(all.take(i as int), cols as int).pending,
            i > mark ==> rows_at_mark == Flow::start().over(
                all.take(mark as int),
                cols as int,
            ).rows.len(),
            i > mark ==> pending_at_mark == Flow::start().over(
                all.take(mark as int),
                cols as int,
            ).pending.len(),
        decreases lines@.len() - i,
    {
        if i == mark {
            rows_at_mark = rows.len();
            pending_at_mark = pending.len();
        }
        let ghost before = Flow::start().over(all.take(i as int), cols as int);
        let line = &lines[i];
        let keep = if line.wrapped {
            assert(line.cells@.take(line.cells@.len() as int) =~= line.cells@);
            line.cells.len()
        } else {
            trimmed_len(&line.cells)
        };
        let mut j: usize = 0;
        assert(before.pending + line.cells@.take(0) =~= before.pending);
        while j < keep
            invariant
                j <= keep <= line.cells@.len(),
                pending@ == before.pending + line.cells@.take(j as int),
            decreases keep - j,
        {
            pending.push(line.cells[j]);
            assert(before.pending + line.cells@.take(j + 1) =~= (before.pending
                + line.cells@.take(j as int)).push(line.cells@[j as int]));
            j = j + 1;
        }
        if !line.wrapped {
            push_split(&mut rows, &pending, cols);
            pending = Vec::new();
        }
        proof {
            let next = all.take(i + 1);
            assert(next.drop_last() =~= all.take(i as int));
            assert(next.last() == line@);
            assert(pending@ =~= before.step(line@, cols as int).pending);
        }
        i = i + 1;
    }
    assert(all.take(lines@.len() as int) =~= all);
    if mark == lines.len() {
        rows_at_mark = rows.len();
        pending_at_mark = pending.len();
    }
    if pending.len() > 0 {
        push_split(&mut rows, &pending, cols);
    }
    (rows, rows_at_mark, pending_at_mark)
}

} // verus!
