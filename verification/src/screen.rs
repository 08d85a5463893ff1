//! The screen: a grid of styled cells with a cursor, tab stops, a scrolling
//! region and an optional scrollback. It implements the verbs of `VTScreen`.

use crate::cell::{Cell, CellModel, Style};
use crate::line::{Line, LineModel};
use crate::screen_model::{
    Cursor, ScreenModel, SCREEN_COLS_DEFAULT, SCREEN_COLS_MIN, SCREEN_ROWS_DEFAULT,
    SCREEN_ROWS_MIN, SCREEN_SIZE_MAX,
};
use crate::scrollback::MemScrollback;
use crate::vt::{VTCharset, VTMode, VTScreen};
use vstd::prelude::*;

mod erase;
mod glyph;
mod motion;
mod render;
mod resize;
mod scroll;
mod verbs;

verus! {

/// The models of a sequence of lines.
pub open spec fn lines_view(lines: Seq<Line>) -> Seq<LineModel> {
    Seq::new(lines.len(), |i: int| lines[i]@)
}

impl Cursor {
    /// Makes the designated character set of `slot` the active one.
    pub fn charset_use(&mut self, slot: u32)
        ensures
            *final(self) == old(self).spec_charset_use(slot),
    {
        if slot == 0 {
            self.charset = self.g0;
        } else if slot == 1 {
            self.charset = self.g1;
        } else if slot == 2 {
            self.charset = self.g2;
        } else if slot == 3 {
            self.charset = self.g3;
        }
    }

    /// Designates a character set to `slot`.
    pub fn charset_designate(&mut self, slot: u32, charset: VTCharset)
        ensures
            *final(self) == old(self).spec_charset_designate(slot, charset),
    {
        if slot == 0 {
            self.g0 = charset;
        } else if slot == 1 {
            self.g1 = charset;
        } else if slot == 2 {
            self.g2 = charset;
        } else if slot == 3 {
            self.g3 = charset;
        }
    }
}

/// A wanted width or height brought into the range of sizes.
fn clamp_size(wanted: u32, min: u32) -> (r: u32)
    requires
        min <= SCREEN_SIZE_MAX,
    ensures
        r == crate::screen_model::spec_clamp_size(wanted, min),
        min <= r <= SCREEN_SIZE_MAX,
{
    if wanted < min {
        min
    } else if wanted > SCREEN_SIZE_MAX {
        SCREEN_SIZE_MAX
    } else {
        wanted
    }
}

#[derive(Debug)]
pub struct Screen {
    /// Size: width, height, in number of characters
    size: (u32, u32),
    /// Current cursor data
    cursor: Cursor,
    /// Saved cursor data (for the VT cursor save & restore functionality)
    cursor_saved: Cursor,
    /// Mode
    mode: VTMode,
    /// Scrolling region span: top, bottom; spans the whole screen by default.
    /// Both count from 0, while `set_scroll_region()` counts from 1.
    scroll_rg: (u32, u32),
    /// Tab stops
    tabs: Vec<bool>,
    /// The actual character data. The rows are changed in place, so they
    /// are kept in a vector: the deque's verified interface hands out no
    /// mutable row.
    lines: Vec<Line>,
    /// Scrollback, if any
    scrollback: Option<MemScrollback>,
    /// Dirty flag: indicates if the whole screen needs re-rendering
    dirty: bool,
    /// Records number of scrolled lines for the purposes of rendering
    scrolled_lines: u32,
}

impl View for Screen {
    type V = ScreenModel;

    closed spec fn view(&self) -> ScreenModel {
        ScreenModel {
            size: self.size,
            cursor: self.cursor,
            cursor_saved: self.cursor_saved,
            mode: self.mode,
            scroll_rg: self.scroll_rg,
            tabs: self.tabs@,
            lines: lines_view(self.lines@),
            scrollback: match self.scrollback {
                Some(s) => Some(s@),
                None => None,
            },
            dirty: self.dirty,
            scrolled_lines: self.scrolled_lines,
        }
    }
}

impl Screen {
    /// The screen's invariant: that of its model, and that of its
    /// scrollback.
    pub open spec fn wf(&self) -> bool {
        &&& self@.wf()
        &&& self.scrollback_counted()
    }

    /// Whether the counters of the scrollback, if any, agree with what it
    /// stores.
    pub closed spec fn scrollback_counted(&self) -> bool {
        match self.scrollback {
            Some(s) => s.counted(),
            None => true,
        }
    }

    /// A screen of the minimum size.
    pub fn new() -> (s: Screen)
        ensures
            s.wf(),
            s@ == ScreenModel::initial((SCREEN_COLS_MIN, SCREEN_ROWS_MIN)),
    {
        Screen::with_size((SCREEN_COLS_MIN, SCREEN_ROWS_MIN))
    }

    /// A blank screen of the given size, or of the nearest size there is.
    pub fn with_size(size: (u32, u32)) -> (s: Screen)
        ensures
            s.wf(),
            s@ == ScreenModel::initial(size),
    {
        let cols = clamp_size(size.0, SCREEN_COLS_MIN);
        let rows = clamp_size(size.1, SCREEN_ROWS_MIN);
        let ghost blank = LineModel::filled(CellModel::blank(Style::spec_default()), cols as nat);
        let mut lines: Vec<Line> = Vec::new();
        let mut i: u32 = 0;
        while i < rows
            invariant
                i <= rows,
                lines@.len() == i,
                blank == LineModel::filled(CellModel::blank(Style::spec_default()), cols as nat),
                forall|k: int| 0 <= k < i ==> (#[trigger] lines@[k])@ == blank,
            decreases rows - i,
        {
            lines.push(Line::with_size(Cell::default(), cols));
            i += 1;
        }
        let mut tabs: Vec<bool> = Vec::new();
        let mut c: u32 = 0;
        while c < cols
            invariant
                c <= cols,
                tabs@.len() == c,
                forall|k: int| 0 <= k < c ==> #[trigger] tabs@[k] == (k > 0 && k % 8 == 0),
            decreases cols - c,
        {
            tabs.push(c > 0 && c % 8 == 0);
            c += 1;
        }
        let s = Screen {
            size: (cols, rows),
            cursor: Cursor::default(),
            cursor_saved: Cursor::default(),
            mode: VTMode::default(),
            scroll_rg: (0, rows - 1),
            tabs,
            lines,
            scrollback: None,
            dirty: true,
            scrolled_lines: 0,
        };
        proof {
            assert(s@.lines =~= ScreenModel::initial(size).lines);
            assert(s@.tabs =~= ScreenModel::initial(size).tabs);
        }
        s
    }

    /// The screen with `scrollback` as its scrollback.
    pub fn with_scrollback(self, scrollback: MemScrollback) -> (s: Screen)
        requires
            self.wf(),
            scrollback.wf(),
        ensures
            s.wf(),
            s@ == (ScreenModel { scrollback: Some(scrollback@), ..self@ }),
    {
        let mut s = self;
        s.scrollback = Some(scrollback);
        s
    }

    /// The rows of the screen, top to bottom.
    pub fn line_iter(&self) -> (r: &Vec<Line>)
        ensures
            lines_view(r@) == self@.lines,
    {
        &self.lines
    }

    /// The scrollback, if any.
    pub fn scrollback(&self) -> (r: Option<&MemScrollback>)
        requires
            self.wf(),
        ensures
            match r {
                Some(s) => s.wf() && self@.scrollback == Some(s@),
                None => self@.scrollback is None,
            },
    {
        self.scrollback.as_ref()
    }

    /// The size of the screen: columns, rows.
    pub fn size(&self) -> (r: (u32, u32))
        ensures
            r == self@.size,
    {
        self.size
    }

    /// The cursor's position, counted from 1: column, row.
    pub fn cursor(&self) -> (r: (u32, u32))
        requires
            self.wf(),
        ensures
            r == ((self@.cursor.x + 1) as u32, (self@.cursor.y + 1) as u32),
            1 <= r.0 <= self@.cols(),
            1 <= r.1 <= self@.rows(),
    {
        (self.cursor.x + 1, self.cursor.y + 1)
    }

    /// The scrolling region: its first and its last line, counted from 0.
    pub fn scroll_region(&self) -> (r: (u32, u32))
        ensures
            r == self@.scroll_rg,
    {
        self.scroll_rg
    }

    /// Whether there is a tab stop at `column`, counted from 0.
    pub fn tab_at(&self, column: usize) -> (r: bool)
        ensures
            r == (column < self@.tabs.len() && self@.tabs[column as int]),
    {
        column < self.tabs.len() && self.tabs[column]
    }

    /// The modes that are set.
    pub fn mode(&self) -> (r: VTMode)
        ensures
            r == self@.mode,
    {
        self.mode
    }

    fn empty_char(&self) -> (c: Cell)
        ensures
            c@ == self@.blank(),
    {
        Cell::with_style(self.cursor.style)
    }

    fn empty_line(&self) -> (l: Line)
        ensures
            l@ == self@.blank_line(),
    {
        Line::with_size(self.empty_char(), self.size.0)
    }

    /// The column that the cursor counts from.
    fn x(&self) -> (r: usize)
        requires
            self.wf(),
        ensures
            r == self@.cursor.column(),
    {
        if self.cursor.wrap_next {
            self.cursor.x as usize + 1
        } else {
            self.cursor.x as usize
        }
    }

    fn y(&self) -> (r: usize)
        ensures
            r == self@.cursor.y,
    {
        self.cursor.y as usize
    }

    fn clamp_x(&self, x: i64) -> (r: u32)
        requires
            self.wf(),
        ensures
            r == self@.clamp_x(x as int),
            r < self@.cols(),
    {
        if x >= self.size.0 as i64 {
            self.size.0 - 1
        } else if x < 0 {
            0
        } else {
            x as u32
        }
    }

    fn clamp_y(&self, y: i64) -> (r: u32)
        requires
            self.wf(),
        ensures
            r == self@.clamp_y(y as int),
            r < self@.rows(),
    {
        if y >= self.size.1 as i64 {
            self.size.1 - 1
        } else if y < 0 {
            0
        } else {
            y as u32
        }
    }

    fn sr_set(&self) -> (r: bool)
        requires
            self.wf(),
        ensures
            r == self@.sr_set(),
    {
        !(self.scroll_rg.0 == 0 && self.scroll_rg.1 == self.size.1 - 1)
    }

    fn cursor_in_sr(&self) -> (r: bool)
        ensures
            r == self@.cursor_in_sr(),
    {
        self.cursor.y >= self.scroll_rg.0 && self.cursor.y <= self.scroll_rg.1
    }

    fn cursor_set_pos(&mut self, x: i64, y: i64)
        requires
            old(self).wf(),
        ensures
            final(self).wf(),
            final(self)@ == old(self)@.cursor_set_pos(x as int, y as int),
    {
        self.cursor.x = self.clamp_x(x);
        self.cursor.wrap_next = false;
        self.cursor.y = if self.mode.contains(VTMode::origin()) {
            if y > self.scroll_rg.1 as i64 {
                self.scroll_rg.1
            } else if y < self.scroll_rg.0 as i64 {
                self.scroll_rg.0
            } else {
                y as u32
            }
        } else {
            self.clamp_y(y)
        };
    }

    /// Puts the cursor on column `x`, brought into the screen.
    fn set_x(&mut self, x: i64)
        requires
            old(self).wf(),
        ensures
            final(self).wf(),
            final(self)@ == old(self)@.with_x(x as int),
    {
        self.cursor.x = self.clamp_x(x);
        self.cursor.wrap_next = false;
    }

    fn push_scrollback(&mut self, line: Line)
        requires
            old(self).wf(),
        ensures
            final(self).wf(),
            final(self)@ == (ScreenModel {
                scrollback: crate::screen_model::sb_push(old(self)@.scrollback, line@),
                ..old(self)@
            }),
    {
        match self.scrollback.take() {
            Some(mut scrollback) => {
                scrollback.push(line);
                self.scrollback = Some(scrollback);
            },
            None => {},
        }
    }

    /// Marks the whole screen for re-rendering.
    pub fn set_dirty(&mut self)
        ensures
            final(self)@ == (ScreenModel { dirty: true, ..old(self)@ }),
            old(self).wf() ==> final(self).wf(),
    {
        self.dirty = true;
    }

    /// Clears the screen's dirty flag and says whether it was set.
    pub fn reset_dirty(&mut self) -> (r: bool)
        ensures
            r == old(self)@.dirty,
            final(self)@ == (ScreenModel { dirty: false, ..old(self)@ }),
            old(self).wf() ==> final(self).wf(),
    {
        let res = self.dirty;
        self.dirty = false;
        res
    }

    /// Gives the number of lines scrolled up since the last call, and
    /// starts counting anew.
    pub fn reset_scrolled_lines(&mut self) -> (r: u32)
        ensures
            r == old(self)@.scrolled_lines,
            final(self)@ == (ScreenModel { scrolled_lines: 0, ..old(self)@ }),
            old(self).wf() ==> final(self).wf(),
    {
        let res = self.scrolled_lines;
        self.scrolled_lines = 0;
        res
    }
}

impl Screen {
    /// Replaces the cell at column `x` of the cursor's line.
    fn set_cell(&mut self, x: usize, cell: Cell)
        requires
            old(self).wf(),
            x < old(self)@.cols(),
        ensures
            final(self).wf(),
            final(self)@ == old(self)@.with_cell(x as int, cell@),
    {
        let y = self.cursor.y as usize;
        let ghost model = cell@;
        self.lines[y].cells[x] = cell;
        proof {
            let want = old(self)@.with_cell(x as int, model);
            assert(self.lines@[y as int]@.cells =~= want.lines[y as int].cells);
            assert(self@.lines =~= want.lines);
        }
    }

    /// Blanks the cells `[start, end)` of the cursor's line.
    fn blank_cells(&mut self, start: usize, end: u64)
        requires
            old(self).wf(),
        ensures
            final(self).wf(),
            final(self)@ == old(self)@.blank_cells(start as int, end as int),
    {
        let y = self.cursor.y as usize;
        let blank = self.empty_char();
        let w = self.size.0 as usize;
        let stop = if end > w as u64 {
            w
        } else {
            end as usize
        };
        self.lines[y].fill(start, stop, &blank);
        proof {
            let want = old(self)@.blank_cells(start as int, end as int);
            assert(self.lines@[y as int]@.cells =~= want.lines[y as int].cells);
            assert(self@.lines =~= want.lines);
        }
    }

    /// Blanks the lines `[start, end)`.
    fn blank_lines(&mut self, start: usize, end: usize)
        requires
            old(self).wf(),
        ensures
            final(self).wf(),
            final(self)@ == old(self)@.blank_lines(start as int, end as int),
    {
        let stop = if end < self.lines.len() {
            end
        } else {
            self.lines.len()
        };
        let mut i: usize = start;
        while i < stop
            invariant
                old(self).wf(),
                stop <= self.lines@.len(),
                stop == end || stop == self.lines@.len(),
                stop <= end,
                start <= i,
                i <= stop || i == start,
                self@ == (ScreenModel { lines: self@.lines, ..old(self)@ }),
                self.scrollback_counted(),
                self.lines@.len() == old(self).lines@.len(),
                forall|k: int|
                    0 <= k < self.lines@.len() ==> (#[trigger] self.lines@[k])@ == (if start <= k
                        < i {
                        old(self)@.blank_line()
                    } else {
                        old(self).lines@[k]@
                    }),
            decreases stop - i,
        {
            let blank = self.empty_line();
            self.lines[i] = blank;
            i += 1;
        }
        proof {
            let want = old(self)@.blank_lines(start as int, end as int);
            assert(self@.lines =~= want.lines);
        }
    }

    /// Takes line `i` out of the grid and leaves a blank line in its place.
    fn take_line(&mut self, i: usize) -> (line: Line)
        requires
            old(self).wf(),
            i < old(self)@.rows(),
        ensures
            final(self).wf(),
            line@ == old(self)@.lines[i as int],
            final(self)@ == (ScreenModel {
                lines: old(self)@.lines.update(i as int, old(self)@.blank_line()),
                ..old(self)@
            }),
    {
        let blank = self.empty_line();
        self.lines.push(blank);
        let line = self.lines.swap_remove(i);
        proof {
            let want = old(self)@.lines.update(i as int, old(self)@.blank_line());
            assert(self@.lines =~= want);
        }
        line
    }

}

impl Default for Screen {
    /// A screen of the default size, 80 by 40.
    fn default() -> (s: Screen)
        ensures
            s.wf(),
            s@ == ScreenModel::initial((SCREEN_COLS_DEFAULT, SCREEN_ROWS_DEFAULT)),
    {
        Screen::with_size((SCREEN_COLS_DEFAULT, SCREEN_ROWS_DEFAULT))
    }
}

} // verus!
