use crate::pen::Pen;
use vstd::prelude::*;
use vstd::std_specs::convert::FromSpecImpl;

verus! {

/// One position of the grid: a character and the pen it was printed with.
#[derive(Debug, Clone, Copy, PartialEq, Eq)]
pub struct Cell {
    pub ch: char,
    pub pen: Pen,
}

impl From<char> for Cell {
    fn from(value: char) -> (r: Self) {
        Cell::new(value, Pen::default())
    }
}

impl FromSpecImpl<char> for Cell {
    open spec fn obeys_from_spec() -> bool {
        true
    }

    open spec fn from_spec(value: char) -> Self {
        Cell { ch: value, pen: Pen::default_pen() }
    }
}

impl Cell {
    /// The blank cell of a pen: a space drawn with it.
    pub open spec fn blank_of(pen: Pen) -> Cell {
        Cell { ch: ' ', pen }
    }

    /// Whether this cell is a space drawn like the default pen draws.
    pub open spec fn is_default(self) -> bool {
        self.ch == ' ' && self.pen.plain()
    }

    pub fn new(ch: char, pen: Pen) -> (r: Self)
        ensures
            r == (Cell { ch, pen }),
    {
        Cell { ch, pen }
    }

    pub fn blank(pen: Pen) -> (r: Self)
        ensures
            r == Cell::blank_of(pen),
    {
        Cell::new(' ', pen)
    }
}

} // verus!
