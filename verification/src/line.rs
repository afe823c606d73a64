use crate::cell::Cell;
use crate::pen::Pen;
use std::ops::Range;
use vstd::prelude::*;

verus! {

/// One row of the grid: its cells, and whether the text runs on into the
/// next row.
#[derive(Debug)]
pub struct Line {
    pub cells: Vec<Cell>,
    pub wrapped: bool,
}

/// The value of a row: the sequence of its cells and its continuation flag.
#[verifier::ext_equal]
pub struct LineView {
    pub cells: Seq<Cell>,
    pub wrapped: bool,
}

impl View for Line {
    type V = LineView;

    open spec fn view(&self) -> LineView {
        LineView { cells: self.cells@, wrapped: self.wrapped }
    }
}

impl LineView {
    /// A row of `cols` blank cells of `pen` that does not run on.
    pub open spec fn blank(cols: nat, pen: Pen) -> LineView {
        LineView { cells: Seq::new(cols, |i: int| Cell::blank_of(pen)), wrapped: false }
    }

    /// The number of cells.
    pub open spec fn width(self) -> nat {
        self.cells.len()
    }

    /// This row with `cell` at `col`.
    pub open spec fn print(self, col: int, cell: Cell) -> LineView {
        LineView { cells: self.cells.update(col, cell), ..self }
    }

    /// This row with `n` copies of `cell` pushed in at `col`; the cells from
    /// `col` on move right and the last `n` fall off.
    pub open spec fn insert(self, col: int, n: int, cell: Cell) -> LineView {
        LineView {
            cells: Seq::new(
                self.cells.len(),
                |i: int|
                    if i < col {
                        self.cells[i]
                    } else if i < col + n {
                        cell
                    } else {
                        self.cells[i - n]
                    },
            ),
            ..self
        }
    }

    /// This row with the `n` cells at `col` taken out; the cells after them
    /// move left and `n` blanks of `pen` fill the end.
    pub open spec fn delete(self, col: int, n: int, pen: Pen) -> LineView {
        LineView {
            cells: Seq::new(
                self.cells.len(),
                |i: int|
                    if i < col {
                        self.cells[i]
                    } else if i < self.cells.len() - n {
                        self.cells[i + n]
                    } else {
                        Cell::blank_of(pen)
                    },
            ),
            ..self
        }
    }

    /// This row with blanks of `pen` in the columns from `start` up to, not
    /// including, `end`.
    pub open spec fn clear(self, start: int, end: int, pen: Pen) -> LineView {
        LineView {
            cells: Seq::new(
                self.cells.len(),
                |i: int|
                    if start <= i < end {
                        Cell::blank_of(pen)
                    } else {
                        self.cells[i]
                    },
            ),
            ..self
        }
    }

    /// This row with the continuation flag as given.
    pub open spec fn with_wrapped(self, wrapped: bool) -> LineView {
        LineView { wrapped, ..self }
    }
}

impl Line {
    pub fn new(cells: Vec<Cell>) -> (r: Self)
        ensures
            r@ == (LineView { cells: cells@, wrapped: false }),
    {
        Line { cells, wrapped: false }
    }

    pub fn blank(cols: usize, pen: &Pen) -> (r: Self)
        ensures
            r@ == LineView::blank(cols as nat, *pen),
    {
        let mut cells: Vec<Cell> = Vec::new();
        let mut i: usize = 0;
        while i < cols
            invariant
                i <= cols,
                cells@.len() == i,
                forall|j: int| 0 <= j < i ==> cells@[j] == Cell::blank_of(*pen),
            decreases cols - i,
        {
            cells.push(Cell::blank(*pen));
            i = i + 1;
        }
        assert(cells@ =~= LineView::blank(cols as nat, *pen).cells);
        Line::new(cells)
    }

    pub fn print(&mut self, col: usize, cell: Cell)
        requires
            col < old(self)@.width(),
        ensures
            final(self)@ == old(self)@.print(col as int, cell),
    {
        self.cells[col] = cell;
    }

    pub fn insert(&mut self, col: usize, n: usize, cell: Cell)
        requires
            col + n <= old(self)@.width(),
        ensures
            final(self)@ == old(self)@.insert(col as int, n as int, cell),
    {
        let len = self.cells.len();
        let mut i: usize = len;
        while i > col + n
            invariant
                col + n <= i <= len,
                self.cells@.len() == len,
                self.wrapped == old(self).wrapped,
                forall|j: int| 0 <= j < i ==> self.cells@[j] == old(self).cells@[j],
                forall|j: int| i <= j < len ==> self.cells@[j] == old(self).cells@[j - n],
            decreases i,
        {
            i = i - 1;
            let moved = self.cells[i - n];
            self.cells[i] = moved;
        }
        let mut k: usize = col;
        while k < col + n
            invariant
                col <= k <= col + n,
                col + n <= len,
                self.cells@.len() == len,
                self.wrapped == old(self).wrapped,
                forall|j: int| 0 <= j < col ==> self.cells@[j] == old(self).cells@[j],
                forall|j: int| col <= j < k ==> self.cells@[j] == cell,
                forall|j: int| col + n <= j < len ==> self.cells@[j] == old(self).cells@[j - n],
            decreases col + n - k,
        {
            self.cells[k] = cell;
            k = k + 1;
        }
        assert(self.cells@ =~= old(self)@.insert(col as int, n as int, cell).cells);
    }

    pub fn delete(&mut self, col: usize, n: usize, pen: &Pen)
        requires
            col + n <= old(self)@.width(),
        ensures
            final(self)@ == old(self)@.delete(col as int, n as int, *pen),
    {
        let len = self.cells.len();
        let mut i: usize = col;
        while i < len - n
            invariant
                col <= i <= len - n,
                self.cells@.len() == len,
                self.wrapped == old(self).wrapped,
                forall|j: int| 0 <= j < col ==> self.cells@[j] == old(self).cells@[j],
                forall|j: int| col <= j < i ==> self.cells@[j] == old(self).cells@[j + n],
                forall|j: int| i <= j < len ==> self.cells@[j] == old(self).cells@[j],
            decreases len - n - i,
        {
            let moved = self.cells[i + n];
            self.cells[i] = moved;
            i = i + 1;
        }
        let mut k: usize = len - n;
        while k < len
            invariant
                len - n <= k <= len,
                col + n <= len,
                self.cells@.len() == len,
                self.wrapped == old(self).wrapped,
                forall|j: int| 0 <= j < col ==> self.cells@[j] == old(self).cells@[j],
                forall|j: int| col <= j < len - n ==> self.cells@[j] == old(self).cells@[j + n],
                forall|j: int| len - n <= j < k ==> self.cells@[j] == Cell::blank_of(*pen),
            decreases len - k,
        {
            self.cells[k] = Cell::blank(*pen);
            k = k + 1;
        }
        assert(self.cells@ =~= old(self)@.delete(col as int, n as int, *pen).cells);
    }

    pub fn clear(&mut self, range: Range<usize>, pen: &Pen)
        requires
            range.start <= range.end <= old(self)@.width(),
        ensures
            final(self)@ == old(self)@.clear(range.start as int, range.end as int, *pen),
    {
        let mut k: usize = range.start;
        while k < range.end
            invariant
                range.start <= k <= range.end <= self.cells@.len(),
                self.cells@.len() == old(self).cells@.len(),
                self.wrapped == old(self).wrapped,
                forall|j: int|
                    0 <= j < self.cells@.len() ==> self.cells@[j] == if range.start <= j < k {
                        Cell::blank_of(*pen)
                    } else {
                        old(self).cells@[j]
                    },
            decreases range.end - k,
        {
            self.cells[k] = Cell::blank(*pen);
            k = k + 1;
        }
        assert(self.cells@ =~= old(self)@.clear(
            range.start as int,
            range.end as int,
            *pen,
        ).cells);
    }
}

} // verus!
