//! Scrolling: of the region, at the cursor, and by moving the cursor past an edge.

use super::Screen;
use crate::line::LineModel;
use crate::screen_model::{ScreenModel, SCREEN_SIZE_MAX};
use crate::vt::VTMode;
use vstd::prelude::*;

verus! {

impl Screen {
    /// Scroll lines in the range (top, bottom), inserting blank lines and
    /// popping to scrollback if appropriate.
    pub(super) fn scroll_generic(&mut self, range: (u32, u32), num: i64)
        requires
            old(self).wf(),
            range.0 <= range.1 < old(self)@.rows(),
            -0x1_0000_0000 <= num <= 0x1_0000_0000,
        ensures
            final(self).wf(),
            final(self)@ == old(self)@.scroll_generic(range.0 as int, range.1 as int, num as int),
    {
        let a = range.0 as usize;
        let b = range.1 as usize;
        let height = (b - a + 1) as i64;
        let n = if num >= 0 {
            num
        } else {
            -num
        };
        let n = if n > height {
            height
        } else {
            n
        };
        let mut j: i64 = 0;
        if num >= 0 {
            proof {
                assert(old(self)@.lines.subrange(0, 0) =~= Seq::<LineModel>::empty());
                assert(self@.lines =~= old(self)@.shifted_up(a as int, b as int, 0).lines);
            }
            while j < n
                invariant
                    0 <= j <= n <= height,
                    height == b - a + 1,
                    a <= b < old(self)@.rows(),
                    old(self).wf(),
                    self.wf(),
                    self@ == old(self)@.shifted_up(a as int, b as int, j as int),
                decreases n - j,
            {
                self.scroll_up_once(a, b, Ghost(old(self)@), Ghost(j as int));
                j += 1;
            }
        } else {
            proof {
                assert(self@.lines =~= old(self)@.shifted_down(a as int, b as int, 0).lines);
            }
            while j < n
                invariant
                    0 <= j <= n <= height,
                    height == b - a + 1,
                    a <= b < old(self)@.rows(),
                    old(self).wf(),
                    self.wf(),
                    self@ == old(self)@.shifted_down(a as int, b as int, j as int),
                decreases n - j,
            {
                self.scroll_down_once(a, b, Ghost(old(self)@), Ghost(j as int));
                j += 1;
            }
        }
        if n > 0 {
            self.mark_dirty(a, b);
        }
    }

    /// Marks the lines `[a, b]` dirty.
    pub(super) fn mark_dirty(&mut self, a: usize, b: usize)
        requires
            old(self).wf(),
            a <= b < old(self)@.rows(),
        ensures
            final(self).wf(),
            final(self)@ == old(self)@.marked_dirty(a as int, b as int),
    {
        let mut i: usize = a;
        while i <= b
            invariant
                a <= i <= b + 1,
                b < self.lines@.len(),
                old(self).wf(),
                self.lines@.len() == old(self).lines@.len(),
                self@ == (ScreenModel { lines: self@.lines, ..old(self)@ }),
                self.scrollback_counted(),
                forall|k: int|
                    0 <= k < self.lines@.len() ==> (#[trigger] self.lines@[k])@ == (if a <= k < i {
                        LineModel { cells: old(self).lines@[k]@.cells, dirty: true }
                    } else {
                        old(self).lines@[k]@
                    }),
            decreases b + 1 - i,
        {
            self.lines[i].dirty = true;
            i += 1;
        }
        proof {
            assert(self@.lines =~= old(self)@.marked_dirty(a as int, b as int).lines);
        }
    }

    /// Scrolls the lines `[a, b]` up by one more line: the top line leaves,
    /// onto the scrollback if the region is at the top of the screen.
    pub(super) fn scroll_up_once(&mut self, a: usize, b: usize, Ghost(from): Ghost<ScreenModel>, Ghost(j): Ghost<int>)
        requires
            old(self).wf(),
            from.wf(),
            a <= b < from.rows(),
            0 <= j < b - a + 1,
            old(self)@ == from.shifted_up(a as int, b as int, j),
        ensures
            final(self).wf(),
            final(self)@ == from.shifted_up(a as int, b as int, j + 1),
    {
        let ghost before = self@;
        let ghost raw = self.lines@;
        let line = self.lines.remove(a);
        let blank = self.empty_line();
        let ghost blank_model = blank@;
        self.lines.insert(b, blank);
        proof {
            assert(raw.len() == from.lines.len());
            assert(line == raw[a as int]);
            assert(before.lines[a as int] == raw[a as int]@);
            assert(line@ == before.lines[a as int]);
            assert(blank_model == from.blank_line());
            let want = from.shifted_up(a as int, b as int, j + 1);
            assert(self.lines@ =~= raw.remove(a as int).insert(b as int, blank));
            assert forall|i: int| 0 <= i < want.lines.len() implies #[trigger] self@.lines[i]
                == want.lines[i] by {
                if a <= i < b {
                    assert(self.lines@[i] == raw[i + 1]);
                    assert(before.lines[i + 1] == raw[i + 1]@);
                } else if i == b {
                    assert(self.lines@[i] == blank);
                } else {
                    assert(self.lines@[i] == raw[i]);
                    assert(before.lines[i] == raw[i]@);
                }
            }
            assert(self@.lines =~= want.lines);
            assert(from.lines.subrange(0, j + 1).drop_last() =~= from.lines.subrange(0, j));
        }
        if a == 0 {
            self.push_scrollback(line);
        }
    }

    /// Scrolls the lines `[a, b]` down by one more line.
    pub(super) fn scroll_down_once(&mut self, a: usize, b: usize, Ghost(from): Ghost<ScreenModel>, Ghost(j): Ghost<int>)
        requires
            old(self).wf(),
            from.wf(),
            a <= b < from.rows(),
            0 <= j < b - a + 1,
            old(self)@ == from.shifted_down(a as int, b as int, j),
        ensures
            final(self).wf(),
            final(self)@ == from.shifted_down(a as int, b as int, j + 1),
    {
        let ghost before = self@;
        let ghost raw = self.lines@;
        self.lines.remove(b);
        let blank = self.empty_line();
        let ghost blank_model = blank@;
        self.lines.insert(a, blank);
        proof {
            assert(raw.len() == from.lines.len());
            assert(blank_model == from.blank_line());
            let want = from.shifted_down(a as int, b as int, j + 1);
            assert(self.lines@ =~= raw.remove(b as int).insert(a as int, blank));
            assert forall|i: int| 0 <= i < want.lines.len() implies #[trigger] self@.lines[i]
                == want.lines[i] by {
                if a < i <= b {
                    assert(self.lines@[i] == raw[i - 1]);
                    assert(before.lines[i - 1] == raw[i - 1]@);
                } else if i == a {
                    assert(self.lines@[i] == blank);
                } else {
                    assert(self.lines@[i] == raw[i]);
                    assert(before.lines[i] == raw[i]@);
                }
            }
            assert(self@.lines =~= want.lines);
        }
    }

    /// The number of lines to scroll by.
    pub(super) fn scroll_amount(num: i32, height: i64) -> (r: i64)
        requires
            1 <= height <= SCREEN_SIZE_MAX,
        ensures
            r == ScreenModel::scroll_amount(num, height as int),
            -height <= r <= height,
    {
        let n: i64 = if num == 0 {
            1
        } else {
            num as i64
        };
        if n > height {
            height
        } else if n < -height {
            -height
        } else {
            n
        }
    }

    /// Scroll screen or the scrolling region if any.
    /// Positive `num` is for scrolling up, negative for scrolling down.
    pub fn scroll(&mut self, num: i32)
        requires
            old(self).wf(),
        ensures
            final(self).wf(),
            final(self)@ == old(self)@.scroll(num),
    {
        // Note that the scroll region interval is inclusive.
        // First make sure no more than the number of lines in scroll region is scrolled
        let srsize = (self.scroll_rg.1 - self.scroll_rg.0 + 1) as i64;
        let n = Self::scroll_amount(num, srsize);
        let whole = !self.sr_set();
        let scroll_rg = self.scroll_rg;
        self.scroll_generic(scroll_rg, n);
        if whole {
            // Scrolling the whole screen is the common case
            if n > 0 {
                let sum = self.scrolled_lines as i64 + n;
                self.scrolled_lines = if sum > u32::MAX as i64 {
                    u32::MAX
                } else {
                    sum as u32
                };
            } else {
                self.dirty = true;
            }
        }
    }

    /// Scroll between current line and the bottom of the scrolling region.
    /// If the current line is outside of the scrolling region, there is no effect.
    /// In VT jargon this is known as Delete Lines and Insert Lines.
    pub fn scroll_at_cursor(&mut self, num: i32)
        requires
            old(self).wf(),
        ensures
            final(self).wf(),
            final(self)@ == old(self)@.scroll_at_cursor(num),
    {
        if !self.cursor_in_sr() {
            return ;
        }
        let y = self.cursor.y;
        let scroll_rg_bottom = self.scroll_rg.1;
        let num_lines = (scroll_rg_bottom - y + 1) as i64;
        let n = Self::scroll_amount(num, num_lines);
        self.scroll_generic((y, scroll_rg_bottom), n);
    }

    pub fn index(&mut self, forward: bool)
        requires
            old(self).wf(),
        ensures
            final(self).wf(),
            final(self)@ == old(self)@.index(forward),
    {
        // If the cursor is in the middle of the screen, just move it in the appropriate direction.
        // If it is at the edge of the scrolling region, perform a scroll up/down instead.
        let y = self.cursor.y;
        if forward {
            if y == self.scroll_rg.1 {
                self.scroll(1);
            } else if y < self.size.1 - 1 {
                self.cursor.y = y + 1;
            }
        } else {
            if y == self.scroll_rg.0 {
                self.scroll(-1);
            } else if y > 0 {
                self.cursor.y = y - 1;
            }
        }
    }

    pub fn newline(&mut self)
        requires
            old(self).wf(),
        ensures
            final(self).wf(),
            final(self)@ == old(self)@.newline(),
    {
        let newline_mode = self.mode.contains(VTMode::newline());
        self.index(true);
        if newline_mode {
            self.set_x(0);
        }
    }

    pub fn next_line(&mut self)
        requires
            old(self).wf(),
        ensures
            final(self).wf(),
            final(self)@ == old(self)@.next_line(),
    {
        self.index(true);
        self.set_x(0);
    }
}

} // verus!
