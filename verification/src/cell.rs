//! Styled character cells, the atoms of the screen's grid.

use crate::utf8::string_push;
use crate::vt::{VTColor, VTRendition, RENDITION_DIRTY};
use vstd::prelude::*;

verus! {

/// Colours and rendition of a cell or of the cursor.
#[derive(Debug, Clone, Copy, PartialEq, Eq, Structural)]
pub struct Style {
    pub col_fg: VTColor,
    pub col_bg: VTColor,
    pub rendition: VTRendition,
}

impl Style {
    /// Default colours and nothing but the dirty hint.
    pub open spec fn spec_default() -> Style {
        Style {
            col_fg: VTColor::DefaultFg,
            col_bg: VTColor::DefaultBg,
            rendition: VTRendition { bits: RENDITION_DIRTY },
        }
    }

    /// Whether the style is the default one, the dirty hint aside.
    pub open spec fn spec_is_default(&self) -> bool {
        &&& self.col_fg == VTColor::DefaultFg
        &&& self.col_bg == VTColor::DefaultBg
        &&& self.rendition.bits | RENDITION_DIRTY == RENDITION_DIRTY
    }

    /// The style with the dirty hint switched on or off.
    pub open spec fn with_dirty(self, dirty: bool) -> Style {
        Style {
            rendition: self.rendition.spec_set(VTRendition { bits: RENDITION_DIRTY }, dirty),
            ..self
        }
    }

    pub fn with_fg(col_fg: VTColor) -> (s: Style)
        ensures
            s == (Style { col_fg, ..Style::spec_default() }),
    {
        Style { col_fg, col_bg: VTColor::DefaultBg, rendition: VTRendition::default() }
    }

    pub fn with_bg(col_bg: VTColor) -> (s: Style)
        ensures
            s == (Style { col_bg, ..Style::spec_default() }),
    {
        Style { col_fg: VTColor::DefaultFg, col_bg, rendition: VTRendition::default() }
    }

    pub fn with_rendition(rendition: VTRendition) -> (s: Style)
        ensures
            s == (Style { rendition, ..Style::spec_default() }),
    {
        Style { col_fg: VTColor::DefaultFg, col_bg: VTColor::DefaultBg, rendition }
    }

    #[verifier::when_used_as_spec(spec_is_default)]
    pub fn is_default(&self) -> (r: bool)
        ensures
            r == self.spec_is_default(),
    {
        self.col_fg == VTColor::DefaultFg && self.col_bg == VTColor::DefaultBg
            && self.rendition.bits | RENDITION_DIRTY == RENDITION_DIRTY
    }
}

impl Default for Style {
    fn default() -> (s: Style)
        ensures
            s == Style::spec_default(),
    {
        Style {
            col_fg: VTColor::DefaultFg,
            col_bg: VTColor::DefaultBg,
            rendition: VTRendition::default(),
        }
    }
}

/// A cell as a mathematical value: its characters and its style.
pub struct CellModel {
    /// The base character, then the combining marks in order of arrival.
    pub chars: Seq<char>,
    pub style: Style,
}

impl CellModel {
    /// A single space in the given style.
    pub open spec fn blank(style: Style) -> CellModel {
        CellModel { chars: seq![' '], style }
    }

    /// A freshly written character: the dirty hint is set.
    pub open spec fn written(ch: char, style: Style) -> CellModel {
        CellModel { chars: seq![ch], style: style.with_dirty(true) }
    }

    /// Whether the cell shows nothing: a single space in the default style.
    pub open spec fn is_empty(self) -> bool {
        self.chars == seq![' '] && self.style.spec_is_default()
    }

    pub open spec fn push(self, ch: char) -> CellModel {
        CellModel { chars: self.chars.push(ch), style: self.style.with_dirty(true) }
    }
}

/// A character as part of the screen's grid, with its `Style`.
///
/// The base character is held in place; combining marks, which are rare,
/// follow in a vector that stays unallocated while there are none.
#[derive(Debug)]
pub struct Cell {
    pub base: char,
    pub marks: Vec<char>,
    pub style: Style,
}

impl View for Cell {
    type V = CellModel;

    open spec fn view(&self) -> CellModel {
        CellModel { chars: seq![self.base] + self.marks@, style: self.style }
    }
}

impl Clone for Cell {
    fn clone(&self) -> (r: Cell)
        ensures
            r@ == self@,
            r.style == self.style,
    {
        let mut marks: Vec<char> = Vec::new();
        let mut i: usize = 0;
        while i < self.marks.len()
            invariant
                i <= self.marks.len(),
                marks@ == self.marks@.take(i as int),
            decreases self.marks.len() - i,
        {
            marks.push(self.marks[i]);
            proof {
                assert(self.marks@.take(i as int).push(self.marks@[i as int])
                    =~= self.marks@.take(i as int + 1));
            }
            i += 1;
        }
        proof {
            assert(self.marks@.take(i as int) =~= self.marks@);
        }
        Cell { base: self.base, marks, style: self.style }
    }
}

impl Cell {
    /// A cell that holds `ch`, freshly written.
    pub fn new(ch: char, style: Style) -> (c: Cell)
        ensures
            c@ == CellModel::written(ch, style),
    {
        let mut res = Cell { base: ch, marks: Vec::new(), style };
        res.set_dirty(true);
        proof {
            assert(res@.chars =~= seq![ch]);
        }
        res
    }

    /// An empty cell in the given style.
    pub fn with_style(style: Style) -> (c: Cell)
        ensures
            c@ == CellModel::blank(style),
    {
        let res = Cell { base: ' ', marks: Vec::new(), style };
        proof {
            assert(res@.chars =~= seq![' ']);
        }
        res
    }

    pub fn set_dirty(&mut self, dirty: bool)
        ensures
            final(self)@ == (CellModel {
                chars: old(self)@.chars,
                style: old(self)@.style.with_dirty(dirty),
            }),
    {
        self.style.rendition.set(VTRendition::dirty(), dirty);
    }

    /// Clears the dirty hint and says whether it was set.
    pub fn reset_dirty(&mut self) -> (r: bool)
        ensures
            r == old(self)@.style.rendition.spec_contains(VTRendition { bits: RENDITION_DIRTY }),
            final(self)@ == (CellModel {
                chars: old(self)@.chars,
                style: old(self)@.style.with_dirty(false),
            }),
    {
        let res = self.style.rendition.contains(VTRendition::dirty());
        self.style.rendition.set(VTRendition::dirty(), false);
        res
    }

    /// Appends a character, typically a combining mark, to the cell.
    pub fn push(&mut self, ch: char)
        ensures
            final(self)@ == old(self)@.push(ch),
    {
        self.marks.push(ch);
        self.set_dirty(true);
        proof {
            assert(final(self)@.chars =~= old(self)@.chars.push(ch));
        }
    }

    /// The cell's text: the base character followed by its combining marks.
    pub fn as_str(&self) -> (s: String)
        ensures
            s@ == self@.chars,
    {
        let mut res = String::new();
        string_push(&mut res, self.base);
        let mut i: usize = 0;
        while i < self.marks.len()
            invariant
                i <= self.marks.len(),
                res@ == seq![self.base] + self.marks@.take(i as int),
            decreases self.marks.len() - i,
        {
            string_push(&mut res, self.marks[i]);
            proof {
                assert((seq![self.base] + self.marks@.take(i as int)).push(self.marks@[i as int])
                    =~= seq![self.base] + self.marks@.take(i as int + 1));
            }
            i += 1;
        }
        proof {
            assert(self.marks@.take(i as int) =~= self.marks@);
        }
        res
    }

    pub fn col_fg(&self) -> (c: VTColor)
        ensures
            c == self@.style.col_fg,
    {
        self.style.col_fg
    }

    pub fn col_bg(&self) -> (c: VTColor)
        ensures
            c == self@.style.col_bg,
    {
        self.style.col_bg
    }

    pub fn rendition(&self) -> (r: VTRendition)
        ensures
            r == self@.style.rendition,
    {
        self.style.rendition
    }

    /// Whether the cell shows nothing: a single space in the default style.
    pub fn is_empty(&self) -> (r: bool)
        ensures
            r == self@.is_empty(),
    {
        proof {
            if self.marks@.len() == 0 {
                assert(self@.chars =~= seq![self.base]);
            }
            assert(self@.chars.len() == 1 + self.marks@.len());
            assert(self@.chars[0] == self.base);
            assert(seq![' '].len() == 1 && seq![' '][0] == ' ');
        }
        self.base == ' ' && self.marks.len() == 0 && self.style.is_default()
    }
}

impl Default for Cell {
    /// The empty cell: a single space in the default style.
    fn default() -> (c: Cell)
        ensures
            c@ == CellModel::blank(Style::spec_default()),
    {
        Cell::with_style(Style::default())
    }
}

} // verus!
