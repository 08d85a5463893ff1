//! A row of cells.

use crate::cell::{Cell, CellModel};
use vstd::prelude::*;

verus! {

/// A line as a mathematical value.
pub struct LineModel {
    pub cells: Seq<CellModel>,
    /// Rendering hint: the line as a whole changed since it was last drawn.
    pub dirty: bool,
}

impl LineModel {
    /// A dirty line of `size` copies of `cell`.
    pub open spec fn filled(cell: CellModel, size: nat) -> LineModel {
        LineModel { cells: Seq::new(size, |i: int| cell), dirty: true }
    }

    /// The line with the cells in `[start, end)` replaced by `value`.
    pub open spec fn fill(self, start: int, end: int, value: CellModel) -> LineModel {
        LineModel {
            cells: Seq::new(
                self.cells.len(),
                |i: int|
                    if start <= i < end {
                        value
                    } else {
                        self.cells[i]
                    },
            ),
            dirty: self.dirty,
        }
    }

    /// Whether every cell of the line is empty.
    pub open spec fn is_empty(self) -> bool {
        forall|i: int| 0 <= i < self.cells.len() ==> (#[trigger] self.cells[i]).is_empty()
    }
}

/// The models of a sequence of cells.
pub open spec fn cells_view(cells: Seq<Cell>) -> Seq<CellModel> {
    Seq::new(cells.len(), |i: int| cells[i]@)
}

#[derive(Debug)]
pub struct Line {
    pub cells: Vec<Cell>,
    pub dirty: bool,
}

impl View for Line {
    type V = LineModel;

    open spec fn view(&self) -> LineModel {
        LineModel { cells: cells_view(self.cells@), dirty: self.dirty }
    }
}

impl Clone for Line {
    fn clone(&self) -> (r: Line)
        ensures
            r@ == self@,
    {
        let mut cells: Vec<Cell> = Vec::new();
        let mut i: usize = 0;
        while i < self.cells.len()
            invariant
                i <= self.cells.len(),
                cells@.len() == i,
                forall|k: int| 0 <= k < i ==> (#[trigger] cells@[k])@ == self.cells@[k]@,
            decreases self.cells.len() - i,
        {
            cells.push(self.cells[i].clone());
            i += 1;
        }
        let res = Line { cells, dirty: self.dirty };
        proof {
            assert(res@.cells =~= self@.cells);
        }
        res
    }
}

impl Line {
    /// A line without cells.
    pub fn new() -> (l: Line)
        ensures
            l@ == (LineModel { cells: Seq::empty(), dirty: true }),
    {
        let res = Line { cells: Vec::new(), dirty: true };
        proof {
            assert(res@.cells =~= Seq::<CellModel>::empty());
        }
        res
    }

    /// A line of `size` copies of `ch`.
    pub fn with_size(ch: Cell, size: u32) -> (l: Line)
        ensures
            l@ == LineModel::filled(ch@, size as nat),
    {
        let mut cells: Vec<Cell> = Vec::new();
        let mut i: u32 = 0;
        while i < size
            invariant
                i <= size,
                cells@.len() == i,
                forall|k: int| 0 <= k < i ==> (#[trigger] cells@[k])@ == ch@,
            decreases size - i,
        {
            cells.push(ch.clone());
            i += 1;
        }
        let res = Line { cells, dirty: true };
        proof {
            assert(res@.cells =~= LineModel::filled(ch@, size as nat).cells);
        }
        res
    }

    pub fn len(&self) -> (n: usize)
        ensures
            n == self@.cells.len(),
    {
        self.cells.len()
    }

    /// Appends a cell to the line.
    pub fn push(&mut self, cell: Cell)
        ensures
            final(self)@ == (LineModel {
                cells: old(self)@.cells.push(cell@),
                dirty: old(self)@.dirty,
            }),
    {
        self.cells.push(cell);
        proof {
            assert(final(self)@.cells =~= old(self)@.cells.push(cell@));
        }
    }

    /// Moves all cells of `other` to the end of this line.
    pub fn append(&mut self, other: &mut Line)
        ensures
            final(self)@ == (LineModel {
                cells: old(self)@.cells + old(other)@.cells,
                dirty: old(self)@.dirty,
            }),
            final(other)@ == (LineModel { cells: Seq::empty(), dirty: old(other)@.dirty }),
    {
        self.cells.append(&mut other.cells);
        proof {
            assert(final(self)@.cells =~= old(self)@.cells + old(other)@.cells);
            assert(final(other)@.cells =~= Seq::<CellModel>::empty());
        }
    }

    /// The cell at `index`.
    pub fn get(&self, index: usize) -> (c: Option<&Cell>)
        ensures
            index < self@.cells.len() ==> c is Some && c.unwrap()@ == self@.cells[index as int],
            index >= self@.cells.len() ==> c is None,
    {
        if index < self.cells.len() {
            Some(&self.cells[index])
        } else {
            None
        }
    }

    /// Clears the dirty hint and says whether it was set.
    pub fn reset_dirty(&mut self) -> (r: bool)
        ensures
            r == old(self)@.dirty,
            final(self)@ == (LineModel { cells: old(self)@.cells, dirty: false }),
    {
        let res = self.dirty;
        self.dirty = false;
        res
    }

    /// Replaces the cells in `[start, end)` by copies of `value`. Indices
    /// past the end of the line are ignored.
    pub fn fill(&mut self, start: usize, end: usize, value: &Cell)
        ensures
            final(self)@ == old(self)@.fill(start as int, end as int, value@),
    {
        let stop = if end < self.cells.len() {
            end
        } else {
            self.cells.len()
        };
        let mut i: usize = start;
        while i < stop
            invariant
                stop <= self.cells.len(),
                stop <= end,
                start <= i,
                i <= stop || i == start,
                stop == end || stop == self.cells.len(),
                self.cells.len() == old(self).cells.len(),
                self.dirty == old(self).dirty,
                forall|k: int|
                    0 <= k < self.cells.len() ==> (#[trigger] self.cells@[k])@ == (if start <= k
                        < i {
                        value@
                    } else {
                        old(self).cells@[k]@
                    }),
            decreases stop - i,
        {
            self.cells[i] = value.clone();
            i += 1;
        }
        proof {
            assert(final(self)@.cells =~= old(self)@.fill(start as int, end as int, value@).cells);
        }
    }

    /// Whether every cell of the line is empty.
    pub fn is_empty(&self) -> (r: bool)
        ensures
            r == self@.is_empty(),
    {
        let mut i: usize = 0;
        while i < self.cells.len()
            invariant
                i <= self.cells.len(),
                forall|k: int| 0 <= k < i ==> (#[trigger] self@.cells[k]).is_empty(),
            decreases self.cells.len() - i,
        {
            if !self.cells[i].is_empty() {
                proof {
                    assert(!self@.cells[i as int].is_empty());
                }
                return false;
            }
            i += 1;
        }
        true
    }
}

} // verus!
