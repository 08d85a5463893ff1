//! The screen as a mathematical value, and what every VT verb does to it.

use crate::cell::{CellModel, Style};
use crate::line::LineModel;
use crate::scrollback::ScrollbackModel;
use crate::vt::{VTCharset, VTErase, VTMode, VTRendition, VTVerb};
use vstd::prelude::*;

verus! {

pub const SCREEN_COLS_MIN: u32 = 10;
pub const SCREEN_ROWS_MIN: u32 = 5;
pub const SCREEN_COLS_DEFAULT: u32 = 80;
pub const SCREEN_ROWS_DEFAULT: u32 = 40;
/// No screen is wider or higher than this.
pub const SCREEN_SIZE_MAX: u32 = 65535;

/// The cursor: where the next character goes and how it will look.
#[derive(Debug, Clone, Copy)]
pub struct Cursor {
    /// Horizontal position on the screen
    pub x: u32,
    /// Vertical position on the screen
    pub y: u32,
    /// Set once a character was written in the last column: the cursor
    /// stays on that column, and the next character wraps first.
    pub wrap_next: bool,
    /// Current format of this cursor
    pub style: Style,
    /// Currently used charset
    pub charset: VTCharset,
    /// The four charset slots
    pub g0: VTCharset,
    pub g1: VTCharset,
    pub g2: VTCharset,
    pub g3: VTCharset,
    /// Whether origin mode was active when the cursor was saved
    pub mode_origin: bool,
}

impl Cursor {
    pub open spec fn initial() -> Cursor {
        Cursor {
            x: 0,
            y: 0,
            wrap_next: false,
            style: Style::spec_default(),
            charset: VTCharset::UsAscii,
            g0: VTCharset::UsAscii,
            g1: VTCharset::UsAscii,
            g2: VTCharset::UsAscii,
            g3: VTCharset::UsAscii,
            mode_origin: false,
        }
    }

    /// The designated character set of a slot.
    pub open spec fn slot(self, slot: u32) -> Option<VTCharset> {
        if slot == 0 {
            Some(self.g0)
        } else if slot == 1 {
            Some(self.g1)
        } else if slot == 2 {
            Some(self.g2)
        } else if slot == 3 {
            Some(self.g3)
        } else {
            None
        }
    }

    /// Slots out of range are ignored.
    pub open spec fn spec_charset_use(self, slot: u32) -> Cursor {
        match self.slot(slot) {
            Some(charset) => Cursor { charset, ..self },
            None => self,
        }
    }

    /// Slots out of range are ignored.
    pub open spec fn spec_charset_designate(self, slot: u32, charset: VTCharset) -> Cursor {
        if slot == 0 {
            Cursor { g0: charset, ..self }
        } else if slot == 1 {
            Cursor { g1: charset, ..self }
        } else if slot == 2 {
            Cursor { g2: charset, ..self }
        } else if slot == 3 {
            Cursor { g3: charset, ..self }
        } else {
            self
        }
    }

    /// The column that the cursor counts from: one past the last column
    /// while a wrap is pending.
    pub open spec fn column(self) -> int {
        if self.wrap_next {
            self.x + 1
        } else {
            self.x as int
        }
    }
}

impl Default for Cursor {
    fn default() -> (c: Cursor)
        ensures
            c == Cursor::initial(),
    {
        Cursor {
            x: 0,
            y: 0,
            wrap_next: false,
            style: Style::default(),
            charset: VTCharset::UsAscii,
            g0: VTCharset::UsAscii,
            g1: VTCharset::UsAscii,
            g2: VTCharset::UsAscii,
            g3: VTCharset::UsAscii,
            mode_origin: false,
        }
    }
}

/// The glyph that the graphics character set shows for a character.
pub open spec fn spec_graphics(ch: char) -> char {
    let ord = ch as u32;
    if ord == 0x5f { '\u{0020}' }
    else if ord == 0x60 { '\u{25c6}' }
    else if ord == 0x61 { '\u{2592}' }
    else if ord == 0x62 { '\u{2409}' }
    else if ord == 0x63 { '\u{240c}' }
    else if ord == 0x64 { '\u{240d}' }
    else if ord == 0x65 { '\u{240a}' }
    else if ord == 0x66 { '\u{00b0}' }
    else if ord == 0x67 { '\u{00b1}' }
    else if ord == 0x68 { '\u{2424}' }
    else if ord == 0x69 { '\u{240b}' }
    else if ord == 0x6a { '\u{2518}' }
    else if ord == 0x6b { '\u{2510}' }
    else if ord == 0x6c { '\u{250c}' }
    else if ord == 0x6d { '\u{2514}' }
    else if ord == 0x6e { '\u{253c}' }
    else if ord == 0x6f { '\u{23ba}' }
    else if ord == 0x70 { '\u{23bb}' }
    else if ord == 0x71 { '\u{2014}' }
    else if ord == 0x72 { '\u{23bd}' }
    else if ord == 0x73 { '\u{23af}' }
    else if ord == 0x74 { '\u{251c}' }
    else if ord == 0x75 { '\u{2524}' }
    else if ord == 0x76 { '\u{2534}' }
    else if ord == 0x77 { '\u{252c}' }
    else if ord == 0x78 { '\u{2502}' }
    else if ord == 0x79 { '\u{2264}' }
    else if ord == 0x7a { '\u{2265}' }
    else if ord == 0x7b { '\u{03c0}' }
    else if ord == 0x7c { '\u{2260}' }
    else if ord == 0x7d { '\u{00a3}' }
    else if ord == 0x7e { '\u{00b7}' }
    else { ch }
}

/// The scrollback, if there is one, after a line was pushed.
pub open spec fn sb_push(sb: Option<ScrollbackModel>, line: LineModel) -> Option<ScrollbackModel> {
    match sb {
        Some(s) => Some(s.push(line)),
        None => None,
    }
}

/// The scrollback, if there is one, after lines were pushed in order.
pub open spec fn sb_push_all(sb: Option<ScrollbackModel>, lines: Seq<LineModel>) -> Option<
    ScrollbackModel,
>
    decreases lines.len(),
{
    if lines.len() == 0 {
        sb
    } else {
        sb_push(sb_push_all(sb, lines.drop_last()), lines.last())
    }
}

/// How many lines at the end are empty, counting at most `limit`.
pub open spec fn trailing_empty(lines: Seq<LineModel>, limit: nat) -> nat
    decreases lines.len(),
{
    if limit > 0 && lines.len() > 0 && lines.last().is_empty() {
        1 + trailing_empty(lines.drop_last(), (limit - 1) as nat)
    } else {
        0
    }
}

/// The default tab stops: every eighth column but the first.
pub open spec fn default_tabs(cols: nat) -> Seq<bool> {
    Seq::new(cols, |i: int| i > 0 && i % 8 == 0)
}

/// Looks for the `count`-th set tab stop from column `at` on, going in the
/// direction of `step`.
pub open spec fn find_tab(tabs: Seq<bool>, at: int, step: int, count: int) -> Option<int>
    decreases
        (if step > 0 {
            tabs.len() - at
        } else {
            at + 1
        }),
{
    if at < 0 || at >= tabs.len() || count <= 0 || (step != 1 && step != -1) {
        None
    } else if tabs[at] && count == 1 {
        Some(at)
    } else {
        find_tab(
            tabs,
            at + step,
            step,
            if tabs[at] {
                count - 1
            } else {
                count
            },
        )
    }
}

/// A line made as wide as `cols`: cut, or extended by empty cells in the
/// style of its last cell.
pub open spec fn line_resized(line: LineModel, cols: nat) -> LineModel {
    LineModel {
        cells: Seq::new(
            cols,
            |i: int|
                if i < line.cells.len() {
                    line.cells[i]
                } else {
                    CellModel::blank(
                        if line.cells.len() > 0 {
                            line.cells.last().style
                        } else {
                            Style::spec_default()
                        },
                    )
                },
        ),
        dirty: line.dirty,
    }
}

/// The screen as a mathematical value.
pub struct ScreenModel {
    /// Size: width, height, in number of characters
    pub size: (u32, u32),
    pub cursor: Cursor,
    pub cursor_saved: Cursor,
    pub mode: VTMode,
    /// Scrolling region: top, bottom, both counted from 0 and inclusive
    pub scroll_rg: (u32, u32),
    pub tabs: Seq<bool>,
    pub lines: Seq<LineModel>,
    pub scrollback: Option<ScrollbackModel>,
    /// Whether the whole screen needs re-rendering
    pub dirty: bool,
    /// The number of lines scrolled up since the renderer last asked
    pub scrolled_lines: u32,
}

impl ScreenModel {
    pub open spec fn cols(self) -> u32 {
        self.size.0
    }

    pub open spec fn rows(self) -> u32 {
        self.size.1
    }

    /// The invariant of the screen: the grid has the screen's size, the
    /// cursor is inside it, and the scrolling region spans at least two
    /// lines of it.
    pub open spec fn wf(self) -> bool {
        &&& SCREEN_COLS_MIN <= self.cols() <= SCREEN_SIZE_MAX
        &&& SCREEN_ROWS_MIN <= self.rows() <= SCREEN_SIZE_MAX
        &&& self.lines.len() == self.rows()
        &&& forall|i: int|
            0 <= i < self.lines.len() ==> (#[trigger] self.lines[i]).cells.len() == self.cols()
        &&& self.tabs.len() == self.cols()
        &&& self.cursor.x < self.cols()
        &&& self.cursor.y < self.rows()
        &&& self.cursor.wrap_next ==> self.cursor.x == self.cols() - 1
        &&& self.scroll_rg.0 < self.scroll_rg.1
        &&& self.scroll_rg.1 <= self.rows() - 1
        &&& match self.scrollback {
            Some(s) => s.wf(),
            None => true,
        }
    }

    /// A screen of the given size as it is when switched on; sizes out of
    /// range are brought into range.
    pub open spec fn initial(size: (u32, u32)) -> ScreenModel {
        let cols = spec_clamp_size(size.0, SCREEN_COLS_MIN);
        let rows = spec_clamp_size(size.1, SCREEN_ROWS_MIN);
        ScreenModel {
            size: (cols, rows),
            cursor: Cursor::initial(),
            cursor_saved: Cursor::initial(),
            mode: VTMode { bits: crate::vt::MODE_WRAP },
            scroll_rg: (0, (rows - 1) as u32),
            tabs: default_tabs(cols as nat),
            lines: Seq::new(
                rows as nat,
                |i: int| LineModel::filled(CellModel::blank(Style::spec_default()), cols as nat),
            ),
            scrollback: None,
            dirty: true,
            scrolled_lines: 0,
        }
    }

    /// The empty cell: a space in the cursor's style.
    pub open spec fn blank(self) -> CellModel {
        CellModel::blank(self.cursor.style)
    }

    pub open spec fn blank_line(self) -> LineModel {
        LineModel::filled(self.blank(), self.cols() as nat)
    }

    /// Whether a scrolling region other than the whole screen is set.
    pub open spec fn sr_set(self) -> bool {
        self.scroll_rg != (0u32, (self.rows() - 1) as u32)
    }

    pub open spec fn cursor_in_sr(self) -> bool {
        self.scroll_rg.0 <= self.cursor.y <= self.scroll_rg.1
    }

    pub open spec fn clamp_x(self, x: int) -> u32 {
        if x >= self.cols() {
            (self.cols() - 1) as u32
        } else if x < 0 {
            0
        } else {
            x as u32
        }
    }

    pub open spec fn clamp_y(self, y: int) -> u32 {
        if y >= self.rows() {
            (self.rows() - 1) as u32
        } else if y < 0 {
            0
        } else {
            y as u32
        }
    }

    /// The row that a wanted row `y` becomes: in origin mode it is kept
    /// inside the scrolling region, otherwise inside the screen.
    pub open spec fn clip_y(self, y: int) -> u32 {
        if self.mode.has(crate::vt::MODE_ORIGIN) {
            if y > self.scroll_rg.1 {
                self.scroll_rg.1
            } else if y < self.scroll_rg.0 {
                self.scroll_rg.0
            } else {
                y as u32
            }
        } else {
            self.clamp_y(y)
        }
    }

    /// The cursor put on a column; a pending wrap is forgotten.
    pub open spec fn with_x(self, x: int) -> ScreenModel {
        ScreenModel {
            cursor: Cursor { x: self.clamp_x(x), wrap_next: false, ..self.cursor },
            ..self
        }
    }

    pub open spec fn cursor_set_pos(self, x: int, y: int) -> ScreenModel {
        ScreenModel {
            cursor: Cursor {
                x: self.clamp_x(x),
                y: self.clip_y(y),
                wrap_next: false,
                ..self.cursor
            },
            ..self
        }
    }

    /// Sets the cursor's position. Coordinates count from 1, and 0 means 1;
    /// `None` keeps the coordinate.
    pub open spec fn cursor_set(self, x: Option<u32>, y: Option<u32>) -> ScreenModel {
        match (x, y) {
            (Some(x), Some(y)) => self.cursor_set_pos(x - 1, y - 1),
            (None, Some(y)) => self.cursor_set_pos(self.cursor.column(), y - 1),
            (Some(x), None) => self.with_x(x - 1),
            (None, None) => self,
        }
    }

    pub open spec fn cursor_move(self, dx: i32, dy: i32) -> ScreenModel {
        self.cursor_set_pos(self.cursor.column() + dx, self.cursor.y + dy)
    }

    pub open spec fn cursor_save(self) -> ScreenModel {
        ScreenModel {
            cursor_saved: Cursor {
                mode_origin: self.mode.has(crate::vt::MODE_ORIGIN),
                ..self.cursor
            },
            ..self
        }
    }

    pub open spec fn cursor_load(self) -> ScreenModel {
        ScreenModel {
            cursor: Cursor {
                x: self.clamp_x(self.cursor_saved.column()),
                y: self.clamp_y(self.cursor_saved.y as int),
                wrap_next: false,
                ..self.cursor_saved
            },
            mode: self.mode.spec_set(
                VTMode { bits: crate::vt::MODE_ORIGIN },
                self.cursor_saved.mode_origin,
            ),
            ..self
        }
    }

    /// Sets the scrolling region from arguments that count from 1, with 0
    /// for the default. Arguments that make no region give the whole screen.
    /// The cursor goes home.
    pub open spec fn set_scroll_region(self, top: u32, bottom: u32) -> ScreenModel {
        let t = if top > 0 {
            top - 1
        } else {
            0
        };
        let b = if bottom == 0 {
            self.rows() - 1
        } else {
            bottom - 1
        };
        let region = if b <= t || t >= self.rows() - 1 || b >= self.rows() {
            (0u32, (self.rows() - 1) as u32)
        } else {
            (t as u32, b as u32)
        };
        ScreenModel {
            scroll_rg: region,
            cursor: Cursor { x: 0, y: 0, wrap_next: false, ..self.cursor },
            ..self
        }
    }

    /// Moves the cursor to the `n`-th next set tab stop, for negative `n` to
    /// the `-n`-th previous one. Where there are not that many it stays.
    pub open spec fn tab(self, n: i32) -> ScreenModel {
        let step = if n > 0 {
            1int
        } else {
            -1int
        };
        let count = if n > 0 {
            n as int
        } else {
            -(n as int)
        };
        match find_tab(self.tabs, self.cursor.column() + step, step, count) {
            Some(x) => self.with_x(x),
            None => self,
        }
    }

    pub open spec fn tab_set(self, tab: bool) -> ScreenModel {
        ScreenModel { tabs: self.tabs.update(self.cursor.x as int, tab), ..self }
    }

    pub open spec fn tabs_clear(self) -> ScreenModel {
        ScreenModel { tabs: Seq::new(self.cols() as nat, |i: int| false), ..self }
    }

    /// The lines `[a, b]` scrolled up by `n`: the top `n` leave, to the
    /// scrollback if the region starts at the top of the screen, and `n`
    /// blank lines come in at the bottom.
    pub open spec fn shifted_up(self, a: int, b: int, n: int) -> ScreenModel {
        ScreenModel {
            lines: Seq::new(
                self.lines.len(),
                |i: int|
                    if a <= i <= b {
                        if i + n <= b {
                            self.lines[i + n]
                        } else {
                            self.blank_line()
                        }
                    } else {
                        self.lines[i]
                    },
            ),
            scrollback: if a == 0 {
                sb_push_all(self.scrollback, self.lines.subrange(0, n))
            } else {
                self.scrollback
            },
            ..self
        }
    }

    /// The lines `[a, b]` scrolled down by `n`: the bottom `n` are lost and
    /// `n` blank lines come in at the top.
    pub open spec fn shifted_down(self, a: int, b: int, n: int) -> ScreenModel {
        ScreenModel {
            lines: Seq::new(
                self.lines.len(),
                |i: int|
                    if a <= i <= b {
                        if i - n >= a {
                            self.lines[i - n]
                        } else {
                            self.blank_line()
                        }
                    } else {
                        self.lines[i]
                    },
            ),
            ..self
        }
    }

    /// The screen with the lines `[a, b]` marked dirty.
    pub open spec fn marked_dirty(self, a: int, b: int) -> ScreenModel {
        ScreenModel {
            lines: Seq::new(
                self.lines.len(),
                |i: int|
                    if a <= i <= b {
                        LineModel { cells: self.lines[i].cells, dirty: true }
                    } else {
                        self.lines[i]
                    },
            ),
            ..self
        }
    }

    /// Scrolls the lines `[a, b]` by `num`, up if it is not negative, and by
    /// no more than the lines there are. Every line of a region that moved
    /// is marked dirty.
    pub open spec fn scroll_generic(self, a: int, b: int, num: int) -> ScreenModel {
        let height = b - a + 1;
        let n = if num >= 0 {
            num
        } else {
            -num
        };
        let n = if n > height {
            height
        } else {
            n
        };
        let moved = if num >= 0 {
            self.shifted_up(a, b, n)
        } else {
            self.shifted_down(a, b, n)
        };
        if n > 0 {
            moved.marked_dirty(a, b)
        } else {
            moved
        }
    }

    /// The number of lines to scroll by: 0 counts as 1, and no more than
    /// `height` either way.
    pub open spec fn scroll_amount(num: i32, height: int) -> int {
        let n = if num == 0 {
            1int
        } else {
            num as int
        };
        if n > height {
            height
        } else if n < -height {
            -height
        } else {
            n
        }
    }

    /// Scrolls the scrolling region, up if `num` is positive. Where the
    /// region is the whole screen, an up-scroll is counted for the renderer
    /// and a down-scroll marks the screen dirty.
    pub open spec fn scroll(self, num: i32) -> ScreenModel {
        let top = self.scroll_rg.0 as int;
        let bottom = self.scroll_rg.1 as int;
        let n = Self::scroll_amount(num, bottom - top + 1);
        let moved = self.scroll_generic(top, bottom, n);
        if self.sr_set() {
            moved
        } else if n > 0 {
            ScreenModel {
                scrolled_lines: if self.scrolled_lines + n > u32::MAX {
                    u32::MAX
                } else {
                    (self.scrolled_lines + n) as u32
                },
                ..moved
            }
        } else {
            ScreenModel { dirty: true, ..moved }
        }
    }

    /// Scrolls the lines from the cursor's to the bottom of the scrolling
    /// region. Outside the region nothing happens.
    pub open spec fn scroll_at_cursor(self, num: i32) -> ScreenModel {
        if !self.cursor_in_sr() {
            self
        } else {
            let y = self.cursor.y as int;
            let bottom = self.scroll_rg.1 as int;
            self.scroll_generic(y, bottom, Self::scroll_amount(num, bottom - y + 1))
        }
    }

    /// Moves the cursor one line, and scrolls instead at the edge of the
    /// scrolling region.
    pub open spec fn index(self, forward: bool) -> ScreenModel {
        let y = self.cursor.y;
        if forward {
            if y == self.scroll_rg.1 {
                self.scroll(1)
            } else if y < self.rows() - 1 {
                ScreenModel { cursor: Cursor { y: (y + 1) as u32, ..self.cursor }, ..self }
            } else {
                self
            }
        } else {
            if y == self.scroll_rg.0 {
                self.scroll(-1i32)
            } else if y > 0 {
                ScreenModel { cursor: Cursor { y: (y - 1) as u32, ..self.cursor }, ..self }
            } else {
                self
            }
        }
    }

    pub open spec fn newline(self) -> ScreenModel {
        let v = self.index(true);
        if self.mode.has(crate::vt::MODE_NEWLINE) {
            v.with_x(0)
        } else {
            v
        }
    }

    pub open spec fn next_line(self) -> ScreenModel {
        self.index(true).with_x(0)
    }

    /// The screen with the cells `[start, end)` of the cursor's line blanked.
    pub open spec fn blank_cells(self, start: int, end: int) -> ScreenModel {
        ScreenModel {
            lines: self.lines.update(
                self.cursor.y as int,
                self.lines[self.cursor.y as int].fill(start, end, self.blank()),
            ),
            ..self
        }
    }

    /// The screen with the lines `[start, end)` blanked.
    pub open spec fn blank_lines(self, start: int, end: int) -> ScreenModel {
        ScreenModel {
            lines: Seq::new(
                self.lines.len(),
                |i: int|
                    if start <= i < end {
                        self.blank_line()
                    } else {
                        self.lines[i]
                    },
            ),
            ..self
        }
    }

    pub open spec fn erase(self, kind: VTErase) -> ScreenModel {
        let x = self.cursor.column();
        let y = self.cursor.y as int;
        let w = self.cols() as int;
        match kind {
            VTErase::All => ScreenModel {
                lines: Seq::new(self.lines.len(), |i: int| self.blank_line()),
                scrollback: sb_push_all(self.scrollback, self.lines),
                ..self
            },
            VTErase::Above => self.blank_cells(0, x + 1).blank_lines(0, y),
            VTErase::Below => self.blank_cells(x, w).blank_lines(y + 1, self.rows() as int),
            VTErase::Line => self.blank_cells(0, w),
            VTErase::LineLeft => self.blank_cells(0, x + 1),
            VTErase::LineRight => self.blank_cells(x, w),
            VTErase::NumChars(n) => self.blank_cells(x, x + n),
        }
    }

    pub open spec fn put_chars(self, num: u32) -> ScreenModel {
        self.blank_cells(self.cursor.column(), self.cursor.column() + num)
    }

    /// The character that the active character set shows for `ch`.
    pub open spec fn mapped(self, ch: char) -> char {
        if self.cursor.charset == VTCharset::Graphics {
            spec_graphics(ch)
        } else {
            ch
        }
    }

    /// The screen with the cell at column `x` of the cursor's line replaced.
    pub open spec fn with_cell(self, x: int, cell: CellModel) -> ScreenModel {
        let y = self.cursor.y as int;
        ScreenModel {
            lines: self.lines.update(
                y,
                LineModel {
                    cells: self.lines[y].cells.update(x, cell),
                    dirty: self.lines[y].dirty,
                },
            ),
            ..self
        }
    }

    pub open spec fn cell_at(self, x: int) -> CellModel {
        self.lines[self.cursor.y as int].cells[x]
    }

    /// Makes room for a glyph of `width` columns: where it does not fit any
    /// more, the cursor wraps to the next line if auto-wrap is on and the
    /// cursor is inside the scrolling region, and else steps back to the
    /// last column where the glyph fits.
    pub open spec fn glyph_room(self, width: int) -> ScreenModel {
        let last_valid = self.cols() - width;
        if self.cursor.column() > last_valid {
            if self.mode.has(crate::vt::MODE_WRAP) && self.cursor_in_sr() {
                self.newline().with_x(0)
            } else {
                self.with_x(last_valid)
            }
        } else {
            self
        }
    }

    /// If the cell left of the cursor is the left half of a wide glyph, the
    /// glyph is about to lose its right half: it becomes a space.
    pub open spec fn unhalve(self) -> ScreenModel {
        let x = self.cursor.x as int;
        if x > 0 && self.cell_at(x - 1).style.rendition.spec_contains(
            VTRendition { bits: crate::vt::RENDITION_WIDE },
        ) {
            let style = self.cell_at(x - 1).style;
            self.with_cell(
                x - 1,
                CellModel {
                    chars: seq![' '],
                    style: Style {
                        rendition: style.rendition.spec_set(
                            VTRendition { bits: crate::vt::RENDITION_WIDE },
                            false,
                        ),
                        ..style
                    }.with_dirty(true),
                },
            )
        } else {
            self
        }
    }

    /// In insert mode the cells right of the cursor are blanked.
    pub open spec fn insert_room(self) -> ScreenModel {
        if self.mode.has(crate::vt::MODE_INSERT) {
            self.blank_cells(self.cursor.x + 1, self.cols() as int)
        } else {
            self
        }
    }

    /// Writes a glyph of `width` columns at the cursor, which has room for
    /// it, and advances the cursor. At the end of the line the cursor stays
    /// on the last column with a wrap pending.
    pub open spec fn write_glyph(self, ch: char, width: int) -> ScreenModel {
        let x = self.cursor.x as int;
        let style = self.cursor.style;
        let cell = CellModel::written(ch, style);
        let v = if width == 2 {
            self.with_cell(x + 1, self.blank()).with_cell(
                x,
                CellModel {
                    chars: cell.chars,
                    style: Style {
                        rendition: cell.style.rendition.spec_set(
                            VTRendition { bits: crate::vt::RENDITION_WIDE },
                            true,
                        ),
                        ..cell.style
                    },
                },
            )
        } else {
            self.with_cell(x, cell)
        };
        let after = x + width;
        ScreenModel {
            cursor: if after >= self.cols() {
                Cursor { x: (self.cols() - 1) as u32, wrap_next: true, ..self.cursor }
            } else {
                Cursor { x: after as u32, wrap_next: false, ..self.cursor }
            },
            ..v
        }
    }

    /// Puts a character of known width on the screen. A character without
    /// width joins the cell under the cursor. One of width one or two is
    /// written at the cursor. Anything else, a control character or a
    /// width that fits no cell, leaves the screen as it is.
    pub open spec fn put_glyph(self, ch: char, width: Option<usize>) -> ScreenModel {
        match width {
            Some(w) => if w == 0 {
                self.with_cell(self.cursor.x as int, self.cell_at(self.cursor.x as int).push(ch))
            } else if w <= 2 {
                self.glyph_room(w as int).unhalve().insert_room().write_glyph(ch, w as int)
            } else {
                self
            },
            None => self,
        }
    }

    /// Puts a character on the screen: it is mapped through the active
    /// character set and takes the columns that its display width asks for.
    pub open spec fn put_char(self, ch: char) -> ScreenModel {
        self.put_glyph(self.mapped(ch), crate::width::char_columns(self.mapped(ch)))
    }

    pub open spec fn alignment_test(self) -> ScreenModel {
        ScreenModel {
            lines: Seq::new(
                self.lines.len(),
                |i: int|
                    LineModel::filled(
                        CellModel::written('E', Style::spec_default()),
                        self.cols() as nat,
                    ),
            ),
            ..self
        }
    }

    /// The screen as it is when switched on, at its size and with its
    /// scrollback.
    pub open spec fn reset(self) -> ScreenModel {
        ScreenModel { scrollback: self.scrollback, ..Self::initial(self.size) }
    }

    /// The screen made `cols` wide: lines are cut or extended, the cursor
    /// stays inside, and new columns get the default tab stops.
    pub open spec fn with_columns(self, cols: u32) -> ScreenModel {
        ScreenModel {
            size: (cols, self.size.1),
            lines: Seq::new(self.lines.len(), |i: int| line_resized(self.lines[i], cols as nat)),
            cursor: if cols == self.cols() {
                self.cursor
            } else if self.cursor.column() >= cols {
                Cursor { x: (cols - 1) as u32, wrap_next: false, ..self.cursor }
            } else {
                Cursor { x: self.cursor.column() as u32, wrap_next: false, ..self.cursor }
            },
            tabs: Seq::new(
                cols as nat,
                |i: int|
                    if i < self.tabs.len() {
                        self.tabs[i]
                    } else {
                        i % 8 == 0
                    },
            ),
            dirty: self.dirty || cols != self.cols(),
            ..self
        }
    }

    /// How many lines leave from the top when the screen shrinks to `rows`
    /// lines: those that are too many once the empty lines at the bottom
    /// have gone.
    pub open spec fn evicted_rows(self, rows: u32) -> int {
        let surplus = (self.rows() - rows) as nat;
        surplus - trailing_empty(self.lines, surplus)
    }

    /// The screen made `rows` high. Where it shrinks, empty lines leave from
    /// the bottom first, then lines leave from the top into the scrollback,
    /// the cursor follows its line, and the scrolling region is cut to fit.
    /// Where it grows, blank lines come in at the bottom, and a scrolling
    /// region that ended on the last line still does.
    pub open spec fn with_rows(self, rows: u32) -> ScreenModel {
        if rows < self.rows() {
            let top = self.evicted_rows(rows);
            let y = if self.cursor.y >= top {
                self.cursor.y - top
            } else {
                0
            };
            let region_bottom = if self.scroll_rg.1 > rows - 1 {
                (rows - 1) as u32
            } else {
                self.scroll_rg.1
            };
            ScreenModel {
                size: (self.size.0, rows),
                lines: self.lines.subrange(top, top + rows),
                scrollback: sb_push_all(self.scrollback, self.lines.subrange(0, top)),
                cursor: Cursor {
                    y: if y > rows - 1 {
                        (rows - 1) as u32
                    } else {
                        y as u32
                    },
                    ..self.cursor
                },
                scroll_rg: (
                    if self.scroll_rg.0 > region_bottom - 1 {
                        (region_bottom - 1) as u32
                    } else {
                        self.scroll_rg.0
                    },
                    region_bottom,
                ),
                dirty: true,
                ..self
            }
        } else {
            ScreenModel {
                size: (self.size.0, rows),
                lines: self.lines + Seq::new(
                    (rows - self.rows()) as nat,
                    |i: int| self.blank_line(),
                ),
                scroll_rg: (
                    self.scroll_rg.0,
                    if rows > self.rows() && self.scroll_rg.1 == self.rows() - 1 {
                        (rows - 1) as u32
                    } else {
                        self.scroll_rg.1
                    },
                ),
                dirty: self.dirty || rows != self.rows(),
                ..self
            }
        }
    }

    /// The screen at another size: first made as wide, then as high as
    /// asked. Sizes out of range are brought into range.
    pub open spec fn resize(self, cols: u32, rows: u32) -> ScreenModel {
        self.with_columns(spec_clamp_size(cols, SCREEN_COLS_MIN)).with_rows(
            spec_clamp_size(rows, SCREEN_ROWS_MIN),
        )
    }

    /// The screen after it was rendered: no dirty hint is left, on the
    /// screen, on a line or on a cell.
    pub open spec fn rendered(self) -> ScreenModel {
        ScreenModel {
            dirty: false,
            lines: Seq::new(
                self.lines.len(),
                |y: int|
                    LineModel {
                        cells: Seq::new(
                            self.lines[y].cells.len(),
                            |x: int|
                                CellModel {
                                    chars: self.lines[y].cells[x].chars,
                                    style: self.lines[y].cells[x].style.with_dirty(false),
                                },
                        ),
                        dirty: false,
                    },
            ),
            ..self
        }
    }

    /// What a verb does to the screen.
    pub open spec fn act(self, verb: VTVerb) -> ScreenModel {
        match verb {
            VTVerb::PutChar(ch) => self.put_char(ch),
            VTVerb::PutChars(num) => self.put_chars(num),
            VTVerb::Newline => self.newline(),
            VTVerb::Index(forward) => self.index(forward),
            VTVerb::NextLine => self.next_line(),
            VTVerb::Erase(kind) => self.erase(kind),
            VTVerb::Tab(n) => self.tab(n),
            VTVerb::TabSet(tab) => self.tab_set(tab),
            VTVerb::TabsClear => self.tabs_clear(),
            VTVerb::Reset => self.reset(),
            VTVerb::Resize(cols, rows) => self.resize(cols, rows),
            VTVerb::Scroll(num) => self.scroll(num),
            VTVerb::ScrollAtCursor(num) => self.scroll_at_cursor(num),
            VTVerb::SetScrollRegion(top, bottom) => self.set_scroll_region(top, bottom),
            VTVerb::SetMode(mode, enable) => ScreenModel {
                mode: self.mode.spec_set(mode, enable),
                ..self
            },
            VTVerb::SetRendition(rend, enable) => ScreenModel {
                cursor: Cursor {
                    style: Style {
                        rendition: self.cursor.style.rendition.spec_set(rend, enable),
                        ..self.cursor.style
                    },
                    ..self.cursor
                },
                ..self
            },
            VTVerb::SetFg(color) => ScreenModel {
                cursor: Cursor {
                    style: Style { col_fg: color, ..self.cursor.style },
                    ..self.cursor
                },
                ..self
            },
            VTVerb::SetBg(color) => ScreenModel {
                cursor: Cursor {
                    style: Style { col_bg: color, ..self.cursor.style },
                    ..self.cursor
                },
                ..self
            },
            VTVerb::CharsetUse(slot) => ScreenModel {
                cursor: self.cursor.spec_charset_use(slot),
                ..self
            },
            VTVerb::CharsetDesignate(slot, charset) => ScreenModel {
                cursor: self.cursor.spec_charset_designate(slot, charset),
                ..self
            },
            VTVerb::CursorSet(x, y) => self.cursor_set(x, y),
            VTVerb::CursorMove(x, y) => self.cursor_move(x, y),
            VTVerb::CursorSave => self.cursor_save(),
            VTVerb::CursorLoad => self.cursor_load(),
            VTVerb::AlignmentTest => self.alignment_test(),
        }
    }
}

/// A wanted width or height brought into the range of sizes.
pub open spec fn spec_clamp_size(wanted: u32, min: u32) -> u32 {
    if wanted < min {
        min
    } else if wanted > SCREEN_SIZE_MAX {
        SCREEN_SIZE_MAX
    } else {
        wanted
    }
}

} // verus!
