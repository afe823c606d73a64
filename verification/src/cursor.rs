use vstd::prelude::*;
use vstd::std_specs::convert::FromSpecImpl;

verus! {

/// Where the next character goes, relative to the visible rows, and whether
/// the cursor is shown.
#[derive(Debug, Clone, Copy, PartialEq, Eq, Structural)]
pub struct Cursor {
    pub col: usize,
    pub row: usize,
    pub visible: bool,
}

impl Default for Cursor {
    fn default() -> (r: Self)
        ensures
            r == Cursor::home(),
    {
        Cursor { col: 0, row: 0, visible: true }
    }
}

impl From<Cursor> for Option<(usize, usize)> {
    fn from(cursor: Cursor) -> (r: Self) {
        cursor.shown_position()
    }
}

impl FromSpecImpl<Cursor> for Option<(usize, usize)> {
    open spec fn obeys_from_spec() -> bool {
        true
    }

    open spec fn from_spec(cursor: Cursor) -> Self {
        cursor.shown()
    }
}

impl Cursor {
    /// The visible cursor at the top left corner.
    pub open spec fn home() -> Cursor {
        Cursor { col: 0, row: 0, visible: true }
    }

    /// The column and row of a shown cursor, nothing for a hidden one.
    pub open spec fn shown(self) -> Option<(usize, usize)> {
        if self.visible {
            Some((self.col, self.row))
        } else {
            None
        }
    }

    pub fn position(&self) -> (r: (usize, usize))
        ensures
            r == (self.col, self.row),
    {
        (self.col, self.row)
    }

    /// The column and row of a shown cursor, nothing for a hidden one.
    pub fn shown_position(&self) -> (r: Option<(usize, usize)>)
        ensures
            r == self.shown(),
    {
        if self.visible {
            Some((self.col, self.row))
        } else {
            None
        }
    }
}

} // verus!
