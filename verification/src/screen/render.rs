//! Rendering: handing the cells to a renderer and clearing the dirty hints.

use super::Screen;
use crate::cell::{Cell, CellModel};

use crate::screen_model::ScreenModel;
use vstd::prelude::*;

verus! {

impl Screen {
    /// Hands every cell to `cell_render`, line by line, with its column, its
    /// row, and whether it needs to be drawn anew: because the screen, its
    /// line or the cell itself was dirty. All dirty hints are cleared.
    pub fn render<F: Fn(&Cell, usize, usize, bool)>(&mut self, cell_render: F)
        requires
            old(self).wf(),
            forall|cell: &Cell, x: usize, y: usize, dirty: bool|
                cell_render.requires((cell, x, y, dirty)),
        ensures
            final(self).wf(),
            final(self)@ == old(self)@.rendered(),
    {
        let screen_dirty = self.dirty;
        self.dirty = false;
        let h = self.lines.len();
        let mut y: usize = 0;
        while y < h
            invariant
                y <= h,
                h == self.lines@.len(),
                h == old(self).lines@.len(),
                old(self).wf(),
                self@ == (ScreenModel { lines: self@.lines, dirty: false, ..old(self)@ }),
                self.scrollback_counted(),
                forall|cell: &Cell, x: usize, y: usize, dirty: bool|
                    cell_render.requires((cell, x, y, dirty)),
                forall|k: int|
                    0 <= k < h ==> (#[trigger] self.lines@[k])@ == (if k < y {
                        old(self)@.rendered().lines[k]
                    } else {
                        old(self).lines@[k]@
                    }),
            decreases h - y,
        {
            let line_dirty = self.lines[y].reset_dirty();
            let w = self.lines[y].cells.len();
            let ghost before = self.lines@[y as int]@;
            let mut x: usize = 0;
            while x < w
                invariant
                    x <= w,
                    y < h,
                    h == self.lines@.len(),
                    h == old(self).lines@.len(),
                    w == self.lines@[y as int].cells@.len(),
                    w == before.cells.len(),
                    before.cells == old(self).lines@[y as int]@.cells,
                    self.lines@[y as int].dirty == false,
                    self@ == (ScreenModel { lines: self@.lines, dirty: false, ..old(self)@ }),
                    self.scrollback_counted(),
                    forall|cell: &Cell, x: usize, y: usize, dirty: bool|
                        cell_render.requires((cell, x, y, dirty)),
                    forall|k: int|
                        0 <= k < h && k != y ==> (#[trigger] self.lines@[k])@ == (if k < y {
                            old(self)@.rendered().lines[k]
                        } else {
                            old(self).lines@[k]@
                        }),
                    forall|i: int|
                        0 <= i < w ==> (#[trigger] self.lines@[y as int].cells@[i])@ == (if i < x {
                            CellModel {
                                chars: before.cells[i].chars,
                                style: before.cells[i].style.with_dirty(false),
                            }
                        } else {
                            before.cells[i]
                        }),
                decreases w - x,
            {
                let cell_dirty = self.lines[y].cells[x].reset_dirty();
                cell_render(&self.lines[y].cells[x], x, y, screen_dirty || line_dirty || cell_dirty);
                x += 1;
            }
            proof {
                assert(self.lines@[y as int]@.cells =~= old(self)@.rendered().lines[y as int].cells);
            }
            y += 1;
        }
        proof {
            assert(self@.lines =~= old(self)@.rendered().lines);
        }
    }
}

} // verus!
