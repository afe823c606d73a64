use std::ops::Range;
use vstd::prelude::*;

verus! {

/// The rows that have changed since the last drain: one mark per row.
#[derive(Debug)]
pub struct DirtyLines {
    marks: Vec<bool>,
}

impl View for DirtyLines {
    type V = Seq<bool>;

    closed spec fn view(&self) -> Seq<bool> {
        self.marks@
    }
}

/// `len` rows, none of them marked.
pub open spec fn clean(len: nat) -> Seq<bool> {
    Seq::new(len, |i: int| false)
}

/// `len` rows, all of them marked.
pub open spec fn all_dirty(len: nat) -> Seq<bool> {
    Seq::new(len, |i: int| true)
}

/// The marks with the row `row` marked too, if there is such a row.
pub open spec fn marked(marks: Seq<bool>, row: int) -> Seq<bool> {
    marked_range(marks, row, row + 1)
}

/// The marks with the rows from `start` up to, not including, `end` marked
/// too, as far as there are such rows.
pub open spec fn marked_range(marks: Seq<bool>, start: int, end: int) -> Seq<bool> {
    Seq::new(marks.len(), |i: int| marks[i] || start <= i < end)
}

/// The marks cut or grown to `len` rows; a row that is new is not marked.
pub open spec fn resized(marks: Seq<bool>, len: nat) -> Seq<bool> {
    Seq::new(len, |i: int| i < marks.len() && marks[i])
}

/// `rows` lists the marked rows among the first `upto`, in increasing order.
pub open spec fn lists_marked(rows: Seq<usize>, marks: Seq<bool>, upto: int) -> bool {
    &&& forall|i: int, j: int| 0 <= i < j < rows.len() ==> rows[i] < rows[j]
    &&& forall|i: int| 0 <= i < rows.len() ==> rows[i] < upto && marks[rows[i] as int]
    &&& forall|r: int| 0 <= r < upto && marks[r] ==> rows.contains(r as usize)
}

/// Rows are listed exactly when some row is marked.
pub proof fn lemma_lists_some_iff_marked(rows: Seq<usize>, marks: Seq<bool>)
    requires
        lists_marked(rows, marks, marks.len() as int),
    ensures
        rows.len() > 0 <==> marks.contains(true),
{
    if rows.len() > 0 {
        assert(marks[rows[0] as int]);
    }
    if marks.contains(true) {
        let r = choose|r: int| 0 <= r < marks.len() && marks[r] == true;
        assert(rows.contains(r as usize));
    }
}

impl DirtyLines {
    pub fn new(len: usize) -> (r: Self)
        ensures
            r@ == clean(len as nat),
    {
        let mut marks: Vec<bool> = Vec::new();
        let mut i: usize = 0;
        while i < len
            invariant
                i <= len,
                marks@.len() == i,
                forall|j: int| 0 <= j < i ==> !marks@[j],
            decreases len - i,
        {
            marks.push(false);
            i = i + 1;
        }
        assert(marks@ =~= clean(len as nat));
        DirtyLines { marks }
    }

    pub fn add(&mut self, row: usize)
        ensures
            final(self)@ == marked(old(self)@, row as int),
    {
        if row < self.marks.len() {
            self.marks[row] = true;
        }
        assert(self@ =~= marked(old(self)@, row as int));
    }

    pub fn extend(&mut self, range: Range<usize>)
        ensures
            final(self)@ == marked_range(old(self)@, range.start as int, range.end as int),
    {
        let end = if range.end < self.marks.len() {
            range.end
        } else {
            self.marks.len()
        };
        let mut row: usize = range.start;
        while row < end
            invariant
                end <= self.marks@.len(),
                end <= range.end,
                end == range.end || end == self.marks@.len(),
                range.start <= row,
                row <= end || row == range.start,
                self.marks@.len() == old(self).marks@.len(),
                forall|i: int|
                    0 <= i < self.marks@.len() ==> self.marks@[i] == (old(self).marks@[i]
                        || range.start <= i < row),
            decreases end - row,
        {
            self.marks[row] = true;
            row = row + 1;
        }
        assert(self@ =~= marked_range(old(self)@, range.start as int, range.end as int));
    }

    pub fn resize(&mut self, len: usize)
        ensures
            final(self)@ == resized(old(self)@, len as nat),
    {
        self.marks.truncate(len);
        while self.marks.len() < len
            invariant
                self.marks@.len() <= len,
                forall|i: int|
                    0 <= i < self.marks@.len() ==> self.marks@[i] == (i < old(self).marks@.len()
                        && old(self).marks@[i]),
                old(self).marks@.len() <= self.marks@.len() || self.marks@.len() == len,
            decreases len - self.marks@.len(),
        {
            self.marks.push(false);
        }
        assert(self@ =~= resized(old(self)@, len as nat));
    }

    /// The marked rows in increasing order; afterwards no row is marked.
    pub fn drain(&mut self) -> (rows: Vec<usize>)
        ensures
            final(self)@ == clean(old(self)@.len()),
            lists_marked(rows@, old(self)@, old(self)@.len() as int),
    {
        let mut rows: Vec<usize> = Vec::new();
        let mut r: usize = 0;
        while r < self.marks.len()
            invariant
                r <= self.marks@.len(),
                self.marks@.len() == old(self).marks@.len(),
                forall|i: int| 0 <= i < r ==> !self.marks@[i],
                forall|i: int| r <= i < self.marks@.len() ==> self.marks@[i] == old(self).marks@[i],
                lists_marked(rows@, old(self)@, r as int),
            decreases self.marks@.len() - r,
        {
            if self.marks[r] {
                let ghost before = rows@;
                rows.push(r);
                self.marks[r] = false;
                proof {
                    assert forall|q: int| 0 <= q < r + 1 && old(self)@[q] implies rows@.contains(
                        q as usize,
                    ) by {
                        if q < r {
                            let k = choose|k: int| 0 <= k < before.len() && before[k] == q as usize;
                            assert(rows@[k] == q as usize);
                        } else {
                            assert(rows@[rows@.len() - 1] == q as usize);
                        }
                    }
                }
            }
            r = r + 1;
        }
        assert(self@ =~= clean(old(self)@.len()));
        rows
    }
}

} // verus!
