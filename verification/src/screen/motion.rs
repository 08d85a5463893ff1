//! Cursor motion, tab stops, modes and the cursor's style.

use super::Screen;
use crate::screen_model::ScreenModel;
use crate::vt::{VTCharset, VTColor, VTMode, VTRendition, VTVerb};
use vstd::prelude::*;

verus! {

impl Screen {
    /// Looks for the `count`-th set tab stop from column `at` on.
    pub(super) fn find_tab(&self, at: i64, forward: bool, count: u32) -> (r: Option<u32>)
        requires
            self.wf(),
            -1 <= at <= self@.cols() + 1,
        ensures
            match r {
                Some(x) => crate::screen_model::find_tab(
                    self@.tabs,
                    at as int,
                    if forward {
                        1
                    } else {
                        -1
                    },
                    count as int,
                ) == Some(x as int) && x < self@.cols(),
                None => crate::screen_model::find_tab(
                    self@.tabs,
                    at as int,
                    if forward {
                        1
                    } else {
                        -1
                    },
                    count as int,
                ) is None,
            },
    {
        let step: i64 = if forward {
            1
        } else {
            -1
        };
        let cols = self.size.0 as i64;
        let mut i = at;
        let mut left = count;
        while 0 <= i && i < cols && left > 0
            invariant
                self.wf(),
                cols == self@.cols(),
                -1 <= i <= cols + 1,
                step == (if forward {
                    1int
                } else {
                    -1int
                }),
                crate::screen_model::find_tab(self@.tabs, at as int, step as int, count as int)
                    == crate::screen_model::find_tab(self@.tabs, i as int, step as int, left as int),
            decreases
                (if forward {
                    cols - i
                } else {
                    i + 1
                }),
        {
            if self.tabs[i as usize] {
                if left == 1 {
                    return Some(i as u32);
                }
                left -= 1;
            }
            i += step;
        }
        None
    }

    /// Move the cursor by `tabs` tab stops, backwards if negative.
    pub fn tab(&mut self, tabs: i32)
        requires
            old(self).wf(),
        ensures
            final(self).wf(),
            final(self)@ == old(self)@.tab(tabs),
    {
        let forward = tabs > 0;
        let count: u32 = if tabs > 0 {
            tabs as u32
        } else if tabs == i32::MIN {
            2147483648
        } else {
            (-tabs) as u32
        };
        let start = self.x() as i64 + (if forward {
            1
        } else {
            -1
        });
        match self.find_tab(start, forward, count) {
            Some(x) => self.set_x(x as i64),
            None => {},
        }
    }

    /// Sets or clears the tab stop at the cursor's column.
    pub fn tab_set(&mut self, tab: bool)
        requires
            old(self).wf(),
        ensures
            final(self).wf(),
            final(self)@ == old(self)@.tab_set(tab),
    {
        let x = self.cursor.x as usize;
        self.tabs[x] = tab;
    }

    pub fn tabs_clear(&mut self)
        requires
            old(self).wf(),
        ensures
            final(self).wf(),
            final(self)@ == old(self)@.tabs_clear(),
    {
        let n = self.tabs.len();
        let mut i: usize = 0;
        while i < n
            invariant
                i <= n,
                n == self.tabs@.len(),
                n == old(self).tabs@.len(),
                old(self).wf(),
                self@ == (ScreenModel { tabs: self@.tabs, ..old(self)@ }),
                self.scrollback_counted(),
                forall|k: int| 0 <= k < i ==> !(#[trigger] self.tabs@[k]),
            decreases n - i,
        {
            self.tabs[i] = false;
            i += 1;
        }
        proof {
            assert(self@.tabs =~= old(self)@.tabs_clear().tabs);
        }
    }

    /// Set scrolling region. `top` and `bottom` count from 1, and 0 stands
    /// for the default. If they do not describe a region of at least two
    /// lines inside the screen, the region is reset to the whole screen.
    pub fn set_scroll_region(&mut self, top: u32, bottom: u32)
        requires
            old(self).wf(),
        ensures
            final(self).wf(),
            final(self)@ == old(self)@.set_scroll_region(top, bottom),
    {
        // 1. Apply defaults and convert to 0-indexing
        let mut top = if top > 0 {
            top - 1
        } else {
            0
        };
        let mut bottom = if bottom == 0 {
            self.size.1 - 1
        } else {
            bottom - 1
        };
        // 2. Sanitize - if arguments are illegal, reset to the whole screen
        if bottom <= top || top >= self.size.1 - 1 || bottom >= self.size.1 {
            top = 0;
            bottom = self.size.1 - 1;
        }
        // 3. Apply and reset cursor
        self.scroll_rg = (top, bottom);
        self.cursor.x = 0;
        self.cursor.y = 0;
        self.cursor.wrap_next = false;
    }

    pub fn set_mode(&mut self, mode: VTMode, enable: bool)
        requires
            old(self).wf(),
        ensures
            final(self).wf(),
            final(self)@ == old(self)@.act(VTVerb::SetMode(mode, enable)),
    {
        self.mode.set(mode, enable);
    }

    pub fn set_rendition(&mut self, rend: VTRendition, enable: bool)
        requires
            old(self).wf(),
        ensures
            final(self).wf(),
            final(self)@ == old(self)@.act(VTVerb::SetRendition(rend, enable)),
    {
        self.cursor.style.rendition.set(rend, enable);
    }

    pub fn set_fg(&mut self, color: VTColor)
        requires
            old(self).wf(),
        ensures
            final(self).wf(),
            final(self)@ == old(self)@.act(VTVerb::SetFg(color)),
    {
        self.cursor.style.col_fg = color;
    }

    pub fn set_bg(&mut self, color: VTColor)
        requires
            old(self).wf(),
        ensures
            final(self).wf(),
            final(self)@ == old(self)@.act(VTVerb::SetBg(color)),
    {
        self.cursor.style.col_bg = color;
    }

    pub fn charset_use(&mut self, slot: u32)
        requires
            old(self).wf(),
        ensures
            final(self).wf(),
            final(self)@ == old(self)@.act(VTVerb::CharsetUse(slot)),
    {
        self.cursor.charset_use(slot);
    }

    pub fn charset_designate(&mut self, slot: u32, charset: VTCharset)
        requires
            old(self).wf(),
        ensures
            final(self).wf(),
            final(self)@ == old(self)@.act(VTVerb::CharsetDesignate(slot, charset)),
    {
        self.cursor.charset_designate(slot, charset);
    }

    /// Set cursor absolute position. The coordinates count from 1.
    pub fn cursor_set(&mut self, x: Option<u32>, y: Option<u32>)
        requires
            old(self).wf(),
        ensures
            final(self).wf(),
            final(self)@ == old(self)@.cursor_set(x, y),
    {
        match y {
            Some(y) => {
                let cx = match x {
                    Some(x) => x as i64 - 1,
                    None => self.x() as i64,
                };
                self.cursor_set_pos(cx, y as i64 - 1);
            },
            None => {
                match x {
                    Some(x) => self.set_x(x as i64 - 1),
                    None => {},
                }
            },
        }
    }

    /// Set cursor relative position
    pub fn cursor_move(&mut self, x: i32, y: i32)
        requires
            old(self).wf(),
        ensures
            final(self).wf(),
            final(self)@ == old(self)@.cursor_move(x, y),
    {
        let cx = self.x() as i64 + x as i64;
        let cy = self.cursor.y as i64 + y as i64;
        self.cursor_set_pos(cx, cy);
    }

    /// Save current cursor data: its position, its style, the current
    /// character set and the four designated ones, and the origin mode.
    /// Anything saved before is overwritten.
    pub fn cursor_save(&mut self)
        requires
            old(self).wf(),
        ensures
            final(self).wf(),
            final(self)@ == old(self)@.cursor_save(),
    {
        self.cursor_saved = self.cursor;
        self.cursor_saved.mode_origin = self.mode.contains(VTMode::origin());
    }

    /// Restores the data saved with `cursor_save()`
    pub fn cursor_load(&mut self)
        requires
            old(self).wf(),
        ensures
            final(self).wf(),
            final(self)@ == old(self)@.cursor_load(),
    {
        let saved = self.cursor_saved;
        let column = if saved.wrap_next {
            saved.x as i64 + 1
        } else {
            saved.x as i64
        };
        let x = self.clamp_x(column);
        let y = self.clamp_y(saved.y as i64);
        self.cursor = saved;
        self.mode.set(VTMode::origin(), saved.mode_origin);
        self.cursor.x = x;
        self.cursor.y = y;
        self.cursor.wrap_next = false;
    }
}

} // verus!
