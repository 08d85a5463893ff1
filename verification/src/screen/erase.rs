//! Erasing, the alignment test and the reset.

use super::Screen;
use crate::cell::{Cell, CellModel, Style};
use crate::line::{Line, LineModel};
use crate::screen_model::ScreenModel;
use crate::vt::VTErase;
use vstd::prelude::*;

verus! {

impl Screen {
    /// Sends every line to the scrollback and leaves the screen blank.
    pub(super) fn erase_all(&mut self)
        requires
            old(self).wf(),
        ensures
            final(self).wf(),
            final(self)@ == old(self)@.erase(VTErase::All),
    {
        let h = self.size.1 as usize;
        let ghost lines = self@.lines;
        let mut i: usize = 0;
        proof {
            assert(lines.take(0) =~= Seq::<LineModel>::empty());
        }
        while i < h
            invariant
                i <= h,
                h == old(self)@.rows(),
                old(self).wf(),
                self.wf(),
                lines == old(self)@.lines,
                self@ == (ScreenModel {
                    lines: self@.lines,
                    scrollback: self@.scrollback,
                    ..old(self)@
                }),
                self@.scrollback == crate::screen_model::sb_push_all(
                    old(self)@.scrollback,
                    lines.take(i as int),
                ),
                forall|k: int|
                    0 <= k < h ==> #[trigger] self@.lines[k] == (if k < i {
                        old(self)@.blank_line()
                    } else {
                        lines[k]
                    }),
            decreases h - i,
        {
            let line = self.take_line(i);
            proof {
                assert(lines.take(i as int + 1).drop_last() =~= lines.take(i as int));
            }
            self.push_scrollback(line);
            i += 1;
        }
        proof {
            assert(lines.take(h as int) =~= lines);
            assert(self@.lines =~= old(self)@.erase(VTErase::All).lines);
        }
    }

    /// Performs an erase operation relative to the cursor. Blank cells take
    /// the cursor's style.
    pub fn erase(&mut self, erase: VTErase)
        requires
            old(self).wf(),
        ensures
            final(self).wf(),
            final(self)@ == old(self)@.erase(erase),
    {
        let x = self.x();
        let y = self.y();
        let w = self.size.0 as u64;
        let h = self.size.1 as usize;
        match erase {
            VTErase::All => {
                self.erase_all();
            },
            VTErase::Above => {
                self.blank_cells(0, x as u64 + 1);
                self.blank_lines(0, y);
            },
            VTErase::Below => {
                self.blank_cells(x, w);
                self.blank_lines(y + 1, h);
            },
            VTErase::Line => {
                self.blank_cells(0, w);
            },
            VTErase::LineLeft => {
                self.blank_cells(0, x as u64 + 1);
            },
            VTErase::LineRight => {
                self.blank_cells(x, w);
            },
            VTErase::NumChars(num) => {
                self.blank_cells(x, x as u64 + num as u64);
            },
        }
    }

    /// "DEC Screen Alignment Test": the whole screen is filled with `E`s in
    /// the default style.
    pub fn alignment_test(&mut self)
        requires
            old(self).wf(),
        ensures
            final(self).wf(),
            final(self)@ == old(self)@.alignment_test(),
    {
        let h = self.lines.len();
        let cols = self.size.0;
        let ghost row = LineModel::filled(
            CellModel::written('E', Style::spec_default()),
            cols as nat,
        );
        let mut i: usize = 0;
        while i < h
            invariant
                i <= h,
                h == self.lines@.len(),
                h == old(self).lines@.len(),
                cols == old(self)@.cols(),
                old(self).wf(),
                row == LineModel::filled(
                    CellModel::written('E', Style::spec_default()),
                    cols as nat,
                ),
                self@ == (ScreenModel { lines: self@.lines, ..old(self)@ }),
                self.scrollback_counted(),
                forall|k: int|
                    0 <= k < h ==> (#[trigger] self.lines@[k])@ == (if k < i {
                        row
                    } else {
                        old(self).lines@[k]@
                    }),
            decreases h - i,
        {
            self.lines[i] = Line::with_size(Cell::new('E', Style::default()), cols);
            i += 1;
        }
        proof {
            assert(self@.lines =~= old(self)@.alignment_test().lines);
        }
    }

    /// Brings the screen back to what it is when switched on. Its size and
    /// its scrollback stay.
    pub fn reset(&mut self)
        requires
            old(self).wf(),
        ensures
            final(self).wf(),
            final(self)@ == old(self)@.reset(),
    {
        let fresh = Screen::with_size(self.size);
        self.cursor = fresh.cursor;
        self.cursor_saved = fresh.cursor_saved;
        self.mode = fresh.mode;
        self.scroll_rg = fresh.scroll_rg;
        self.tabs = fresh.tabs;
        self.lines = fresh.lines;
        self.dirty = true;
        self.scrolled_lines = 0;
    }
}

} // verus!
