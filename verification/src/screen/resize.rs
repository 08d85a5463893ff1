//! Resizing the screen.

use super::Screen;
use crate::cell::{Cell, CellModel, Style};
use crate::line::{Line, LineModel};
use crate::screen_model::{ScreenModel, SCREEN_COLS_MIN, SCREEN_ROWS_MIN, SCREEN_SIZE_MAX};

use vstd::prelude::*;

verus! {

impl Screen {
    /// Makes a line as wide as `cols`.
    pub(super) fn resize_line(line: &mut Line, cols: u32)
        ensures
            final(line)@ == crate::screen_model::line_resized(old(line)@, cols as nat),
    {
        let n = cols as usize;
        if line.cells.len() > n {
            line.cells.truncate(n);
        } else if line.cells.len() < n {
            let style = if line.cells.len() > 0 {
                line.cells[line.cells.len() - 1].style
            } else {
                Style::default()
            };
            while line.cells.len() < n
                invariant
                    old(line).cells@.len() <= line.cells@.len() <= n,
                    line.dirty == old(line).dirty,
                    style == (if old(line)@.cells.len() > 0 {
                        old(line)@.cells.last().style
                    } else {
                        Style::spec_default()
                    }),
                    forall|k: int|
                        0 <= k < line.cells@.len() ==> (#[trigger] line.cells@[k])@ == (if k < old(
                            line,
                        ).cells@.len() {
                            old(line).cells@[k]@
                        } else {
                            CellModel::blank(style)
                        }),
                decreases n - line.cells.len(),
            {
                line.cells.push(Cell::with_style(style));
            }
        }
        proof {
            assert(line@.cells =~= crate::screen_model::line_resized(old(line)@, cols as nat).cells);
        }
    }

    /// Makes every line `cols` wide.
    pub(super) fn resize_lines(&mut self, cols: u32)
        ensures
            final(self)@ == (ScreenModel {
                lines: old(self)@.with_columns(cols).lines,
                ..old(self)@
            }),
            final(self).scrollback_counted() == old(self).scrollback_counted(),
    {
        let ghost wide = old(self)@.with_columns(cols).lines;
        let mut i: usize = 0;
        while i < self.lines.len()
            invariant
                i <= self.lines@.len(),
                self.lines@.len() == old(self).lines@.len(),
                self@ == (ScreenModel { lines: self@.lines, ..old(self)@ }),
                self.scrollback_counted() == old(self).scrollback_counted(),
                wide == old(self)@.with_columns(cols).lines,
                forall|k: int|
                    0 <= k < self.lines@.len() ==> (#[trigger] self.lines@[k])@ == (if k < i {
                        wide[k]
                    } else {
                        old(self).lines@[k]@
                    }),
            decreases self.lines@.len() - i,
        {
            let mut line = Line::new();
            core::mem::swap(&mut line, &mut self.lines[i]);
            Self::resize_line(&mut line, cols);
            self.lines[i] = line;
            i += 1;
        }
        proof {
            assert(self@.lines =~= wide);
        }
    }

    /// Makes the tab stops cover `cols` columns.
    pub(super) fn resize_tabs(&mut self, cols: u32)
        ensures
            final(self)@ == (ScreenModel {
                tabs: old(self)@.with_columns(cols).tabs,
                ..old(self)@
            }),
            final(self).scrollback_counted() == old(self).scrollback_counted(),
    {
        if self.tabs.len() > cols as usize {
            self.tabs.truncate(cols as usize);
        }
        while self.tabs.len() < cols as usize
            invariant
                self.tabs@.len() <= cols,
                self@ == (ScreenModel { tabs: self@.tabs, ..old(self)@ }),
                self.scrollback_counted() == old(self).scrollback_counted(),
                self.tabs@.len() == cols || self.tabs@.len() >= old(self).tabs@.len(),
                forall|k: int|
                    0 <= k < self.tabs@.len() ==> #[trigger] self.tabs@[k] == (if k < old(
                        self,
                    ).tabs@.len() {
                        old(self).tabs@[k]
                    } else {
                        k % 8 == 0
                    }),
            decreases cols - self.tabs@.len(),
        {
            let at = self.tabs.len();
            self.tabs.push(at % 8 == 0);
        }
        proof {
            let want = old(self)@.with_columns(cols).tabs;
            assert(self.tabs@.len() == cols);
            assert(want.len() == cols);
            assert forall|k: int| 0 <= k < cols implies self@.tabs[k] == want[k] by {
                assert(self.tabs@[k] == (if k < old(self).tabs@.len() {
                    old(self).tabs@[k]
                } else {
                    k % 8 == 0
                }));
            }
            assert(self@.tabs =~= want);
        }
    }

    /// Makes the screen `cols` wide.
    pub(super) fn resize_columns(&mut self, cols: u32)
        requires
            old(self).wf(),
            SCREEN_COLS_MIN <= cols <= SCREEN_SIZE_MAX,
        ensures
            final(self).wf(),
            final(self)@ == old(self)@.with_columns(cols),
    {
        let old_cols = self.size.0;
        self.resize_lines(cols);
        self.resize_tabs(cols);
        if cols != old_cols {
            let column = if self.cursor.wrap_next {
                self.cursor.x + 1
            } else {
                self.cursor.x
            };
            self.cursor.x = if column >= cols {
                cols - 1
            } else {
                column
            };
            self.cursor.wrap_next = false;
            self.dirty = true;
        }
        self.size = (cols, self.size.1);
    }

    /// Takes the empty lines at the bottom off the grid, `limit` at most,
    /// and says how many they were.
    pub(super) fn pop_empty_lines(&mut self, limit: u32) -> (r: u32)
        requires
            limit <= old(self).lines@.len(),
        ensures
            r == crate::screen_model::trailing_empty(old(self)@.lines, limit as nat),
            r <= limit,
            final(self).lines@.len() == old(self).lines@.len() - r,
            final(self)@ == (ScreenModel {
                lines: old(self)@.lines.take(old(self)@.lines.len() - r),
                ..old(self)@
            }),
            final(self).scrollback_counted() == old(self).scrollback_counted(),
    {
        let ghost all = self@.lines;
        let mut popped: u32 = 0;
        let mut go = true;
        proof {
            assert(all.take(all.len() as int) =~= all);
        }
        while go && popped < limit
            invariant
                popped <= limit <= all.len(),
                all == old(self)@.lines,
                self.lines@.len() == all.len() - popped,
                self@ == (ScreenModel { lines: self@.lines, ..old(self)@ }),
                self.scrollback_counted() == old(self).scrollback_counted(),
                self@.lines == all.take(all.len() - popped),
                crate::screen_model::trailing_empty(all, limit as nat) == popped
                    + crate::screen_model::trailing_empty(
                    all.take(all.len() - popped),
                    (limit - popped) as nat,
                ),
                !go ==> popped < all.len() && !all.take(all.len() - popped).last().is_empty(),
            decreases limit - popped + (if go { 1int } else { 0int }),
        {
            let last = self.lines.len() - 1;
            proof {
                assert(all.take(all.len() - popped).last() == self.lines@[last as int]@);
                assert(all.take(all.len() - popped).drop_last() =~= all.take(
                    all.len() - popped - 1,
                ));
            }
            if self.lines[last].is_empty() {
                self.lines.pop();
                popped += 1;
                proof {
                    assert(self@.lines =~= all.take(all.len() - popped));
                }
            } else {
                go = false;
            }
        }
        popped
    }

    /// Sends the top `count` lines to the scrollback and takes them off the
    /// grid.
    pub(super) fn evict_lines(&mut self, count: u32)
        requires
            count <= old(self).lines@.len(),
            match old(self)@.scrollback {
                Some(s) => s.wf(),
                None => true,
            },
            old(self).scrollback_counted(),
        ensures
            final(self)@ == (ScreenModel {
                lines: old(self)@.lines.skip(count as int),
                scrollback: crate::screen_model::sb_push_all(
                    old(self)@.scrollback,
                    old(self)@.lines.take(count as int),
                ),
                ..old(self)@
            }),
            final(self).scrollback_counted(),
            final(self).lines@.len() == old(self).lines@.len() - count,
            match final(self)@.scrollback {
                Some(s) => s.wf(),
                None => true,
            },
    {
        let ghost all = self@.lines;
        let mut k: u32 = 0;
        proof {
            assert(all.take(0) =~= Seq::<LineModel>::empty());
            assert(all.skip(0) =~= all);
        }
        while k < count
            invariant
                k <= count <= all.len(),
                all == old(self)@.lines,
                self@ == (ScreenModel {
                    lines: self@.lines,
                    scrollback: self@.scrollback,
                    ..old(self)@
                }),
                self@.lines == all.skip(k as int),
                self.lines@.len() == all.len() - k,
                all.len() == old(self).lines@.len(),
                self.scrollback_counted(),
                match self@.scrollback {
                    Some(s) => s.wf(),
                    None => true,
                },
                self@.scrollback == crate::screen_model::sb_push_all(
                    old(self)@.scrollback,
                    all.take(k as int),
                ),
            decreases count - k,
        {
            let ghost before = self@.lines;
            let ghost raw = self.lines@;
            let line = self.lines.remove(0);
            proof {
                assert(line == raw[0]);
                assert(before[0] == raw[0]@);
                assert(before[0] == all[k as int]);
                assert(line@ == all[k as int]);
                assert forall|i: int| 0 <= i < self.lines@.len() implies self@.lines[i] == all.skip(
                    k as int + 1,
                )[i] by {
                    assert(self.lines@[i] == raw[i + 1]);
                    assert(before[i + 1] == raw[i + 1]@);
                }
                assert(self@.lines =~= all.skip(k as int + 1));
                assert(all.take(k as int + 1).drop_last() =~= all.take(k as int));
            }
            match self.scrollback.take() {
                Some(mut scrollback) => {
                    scrollback.push(line);
                    self.scrollback = Some(scrollback);
                },
                None => {},
            }
            k += 1;
        }
    }

    /// Makes the screen `rows` high.
    pub(super) fn resize_rows(&mut self, rows: u32)
        requires
            old(self).wf(),
            SCREEN_ROWS_MIN <= rows <= SCREEN_SIZE_MAX,
        ensures
            final(self).wf(),
            final(self)@ == old(self)@.with_rows(rows),
    {
        let old_rows = self.size.1;
        let cols = self.size.0;
        if rows < old_rows {
            let surplus = old_rows - rows;
            // Try to remove empty lines from back first
            let bottom = self.pop_empty_lines(surplus);
            // Remove the rest from the front
            let top = surplus - bottom;
            self.evict_lines(top);
            self.cursor.y = if self.cursor.y >= top {
                self.cursor.y - top
            } else {
                0
            };
            if self.cursor.y > rows - 1 {
                self.cursor.y = rows - 1;
            }
            // Fix scrolling region if needed
            if self.scroll_rg.1 > rows - 1 {
                self.scroll_rg.1 = rows - 1;
            }
            if self.scroll_rg.0 > self.scroll_rg.1 - 1 {
                self.scroll_rg.0 = self.scroll_rg.1 - 1;
            }
            self.size = (cols, rows);
            self.dirty = true;
            proof {
                let want = old(self)@.with_rows(rows);
                assert(self@.lines =~= want.lines);
                assert(old(self)@.lines.take(old_rows - bottom).take(top as int) =~= old(
                    self,
                )@.lines.subrange(0, top as int));
            }
        } else {
            let ghost blank = self@.blank_line();
            let mut r = old_rows;
            while r < rows
                invariant
                    old_rows <= r <= rows,
                    old(self).wf(),
                    old_rows == old(self)@.rows(),
                    self.lines@.len() == r,
                    blank == old(self)@.blank_line(),
                    self@ == (ScreenModel { lines: self@.lines, ..old(self)@ }),
                    self.scrollback_counted(),
                    forall|k: int|
                        0 <= k < r ==> (#[trigger] self.lines@[k])@ == (if k < old_rows {
                            old(self).lines@[k]@
                        } else {
                            blank
                        }),
                decreases rows - r,
            {
                let line = self.empty_line();
                self.lines.push(line);
                r += 1;
            }
            // If scrolling region bottom line is the last line, expand it
            if rows > old_rows && self.scroll_rg.1 == old_rows - 1 {
                self.scroll_rg.1 = rows - 1;
            }
            if rows != old_rows {
                self.dirty = true;
            }
            self.size = (cols, rows);
            proof {
                let want = old(self)@.with_rows(rows);
                assert(self@.lines =~= want.lines);
            }
        }
    }

    /// Resizes the screen. Sizes under the minimum of 10 by 5 are raised to it.
    pub fn resize(&mut self, cols: u16, rows: u16)
        requires
            old(self).wf(),
        ensures
            final(self).wf(),
            final(self)@ == old(self)@.resize(cols as u32, rows as u32),
    {
        self.resize_to(cols as u32, rows as u32);
    }

    pub(super) fn resize_to(&mut self, cols: u32, rows: u32)
        requires
            old(self).wf(),
        ensures
            final(self).wf(),
            final(self)@ == old(self)@.resize(cols, rows),
    {
        let cols = super::clamp_size(cols, SCREEN_COLS_MIN);
        let rows = super::clamp_size(rows, SCREEN_ROWS_MIN);
        self.resize_columns(cols);
        self.resize_rows(rows);
    }
}

} // verus!
