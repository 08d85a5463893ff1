//! Putting characters on the screen.

use super::Screen;
use crate::cell::Cell;

use crate::vt::{VTCharset, VTMode, VTRendition};
use vstd::prelude::*;

verus! {

/// The glyph that the graphics character set shows for a character.
fn graphics(ch: char) -> (r: char)
    ensures
        r == crate::screen_model::spec_graphics(ch),
{
    let ord = ch as u32;
    if ord == 0x5f { '\u{0020}' }
    else if ord == 0x60 { '\u{25c6}' }
    else if ord == 0x61 { '\u{2592}' }
    else if ord == 0x62 { '\u{2409}' }
    else if ord == 0x63 { '\u{240c}' }
    else if ord == 0x64 { '\u{240d}' }
    else if ord == 0x65 { '\u{240a}' }
    else if ord == 0x66 { '\u{00b0}' }
    else if ord == 0x67 { '\u{00b1}' }
    else if ord == 0x68 { '\u{2424}' }
    else if ord == 0x69 { '\u{240b}' }
    else if ord == 0x6a { '\u{2518}' }
    else if ord == 0x6b { '\u{2510}' }
    else if ord == 0x6c { '\u{250c}' }
    else if ord == 0x6d { '\u{2514}' }
    else if ord == 0x6e { '\u{253c}' }
    else if ord == 0x6f { '\u{23ba}' }
    else if ord == 0x70 { '\u{23bb}' }
    else if ord == 0x71 { '\u{2014}' }
    else if ord == 0x72 { '\u{23bd}' }
    else if ord == 0x73 { '\u{23af}' }
    else if ord == 0x74 { '\u{251c}' }
    else if ord == 0x75 { '\u{2524}' }
    else if ord == 0x76 { '\u{2534}' }
    else if ord == 0x77 { '\u{252c}' }
    else if ord == 0x78 { '\u{2502}' }
    else if ord == 0x79 { '\u{2264}' }
    else if ord == 0x7a { '\u{2265}' }
    else if ord == 0x7b { '\u{03c0}' }
    else if ord == 0x7c { '\u{2260}' }
    else if ord == 0x7d { '\u{00a3}' }
    else if ord == 0x7e { '\u{00b7}' }
    else { ch }
}

impl Screen {
    /// Makes room for a glyph of `width` columns.
    pub(super) fn glyph_room(&mut self, width: u32)
        requires
            old(self).wf(),
            1 <= width <= 2,
        ensures
            final(self).wf(),
            final(self)@ == old(self)@.glyph_room(width as int),
            !final(self)@.cursor.wrap_next,
            final(self)@.cursor.x + width <= final(self)@.cols(),
    {
        let last_valid = self.size.0 - width;
        if self.x() > last_valid as usize {
            if self.mode.contains(VTMode::wrap()) && self.cursor_in_sr() {
                self.newline();
                self.set_x(0);
            } else {
                self.set_x(last_valid as i64);
            }
        }
    }

    /// Turns the left half of a wide glyph, if the cursor sits on its right
    /// half, into a space.
    pub(super) fn unhalve(&mut self)
        requires
            old(self).wf(),
        ensures
            final(self).wf(),
            final(self)@ == old(self)@.unhalve(),
            final(self)@.cursor == old(self)@.cursor,
            final(self)@.size == old(self)@.size,
    {
        let x = self.cursor.x as usize;
        let y = self.cursor.y as usize;
        if x > 0 {
            let prev = &self.lines[y].cells[x - 1];
            if prev.style.rendition.contains(VTRendition::wide()) {
                let mut style = prev.style;
                style.rendition.remove(VTRendition::wide());
                let cell = Cell::new(' ', style);
                self.set_cell(x - 1, cell);
            }
        }
    }

    /// In insert mode, blanks the cells right of the cursor.
    pub(super) fn insert_room(&mut self)
        requires
            old(self).wf(),
        ensures
            final(self).wf(),
            final(self)@ == old(self)@.insert_room(),
            final(self)@.cursor == old(self)@.cursor,
            final(self)@.size == old(self)@.size,
    {
        if self.mode.contains(VTMode::insert_mode()) {
            let x = self.cursor.x as usize;
            let w = self.size.0 as u64;
            self.blank_cells(x + 1, w);
        }
    }

    /// Writes a glyph of `width` columns at the cursor and advances it.
    pub(super) fn write_glyph(&mut self, ch: char, width: u32)
        requires
            old(self).wf(),
            1 <= width <= 2,
            !old(self)@.cursor.wrap_next,
            old(self)@.cursor.x + width <= old(self)@.cols(),
        ensures
            final(self).wf(),
            final(self)@ == old(self)@.write_glyph(ch, width as int),
    {
        let x = self.cursor.x as usize;
        let mut cell = Cell::new(ch, self.cursor.style);
        if width == 2 {
            cell.style.rendition.insert(VTRendition::wide());
            let blank = self.empty_char();
            self.set_cell(x + 1, blank);
        }
        proof {
            assert(cell@.chars =~= seq![ch]);
        }
        self.set_cell(x, cell);
        let after = self.cursor.x + width;
        if after >= self.size.0 {
            self.cursor.x = self.size.0 - 1;
            self.cursor.wrap_next = true;
        } else {
            self.cursor.x = after;
            self.cursor.wrap_next = false;
        }
    }

    /// Puts a character of known display width on the screen: one without
    /// width joins the cell under the cursor, one of width one or two is
    /// written at the cursor, anything else is ignored.
    pub fn put_glyph(&mut self, ch: char, width: Option<usize>)
        requires
            old(self).wf(),
        ensures
            final(self).wf(),
            final(self)@ == old(self)@.put_glyph(ch, width),
    {
        match width {
            Some(w) => {
                if w == 0 {
                    let x = self.cursor.x as usize;
                    let y = self.cursor.y as usize;
                    let mut cell = self.lines[y].cells[x].clone();
                    cell.push(ch);
                    self.set_cell(x, cell);
                } else if w <= 2 {
                    self.glyph_room(w as u32);
                    self.unhalve();
                    self.insert_room();
                    self.write_glyph(ch, w as u32);
                }
            },
            None => {},
        }
    }

    /// Insert a unicode character.
    pub fn put_char(&mut self, ch: char)
        requires
            old(self).wf(),
        ensures
            final(self).wf(),
            final(self)@ == old(self)@.put_char(ch),
    {
        let ch = match self.cursor.charset {
            VTCharset::Graphics => graphics(ch),
            VTCharset::UsAscii => ch,
        };
        let width = crate::width::char_width(ch);
        self.put_glyph(ch, width);
    }

    /// Blanks `num` cells from the cursor on; the cursor stays.
    pub fn put_chars(&mut self, num: u32)
        requires
            old(self).wf(),
        ensures
            final(self).wf(),
            final(self)@ == old(self)@.put_chars(num),
    {
        let x = self.x();
        self.blank_cells(x, x as u64 + num as u64);
    }
}

} // verus!
