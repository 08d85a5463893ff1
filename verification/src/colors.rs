//! Colour schemes: what the colours of the terminal look like.

use crate::vt::VTColor;
use vstd::prelude::*;

verus! {

#[derive(Debug, Clone, Copy, PartialEq, Eq, Structural)]
pub struct Rgba(pub u8, pub u8, pub u8, pub u8);

impl Rgba {
    /// An opaque colour.
    pub open spec fn spec_rgb(r: u8, g: u8, b: u8) -> Rgba {
        Rgba(r, g, b, 0xff)
    }

    #[verifier::when_used_as_spec(spec_rgb)]
    pub fn rgb(r: u8, g: u8, b: u8) -> (c: Rgba)
        ensures
            c == Rgba::spec_rgb(r, g, b),
    {
        Rgba(r, g, b, 0xff)
    }
}

impl Default for Rgba {
    /// Opaque black.
    fn default() -> (c: Rgba)
        ensures
            c == Rgba::spec_rgb(0, 0, 0),
    {
        Rgba::rgb(0, 0, 0)
    }
}

/// A level of the 6 by 6 by 6 colour cube.
pub open spec fn spec_cube(level: u8) -> u8 {
    if level == 0 {
        0x00
    } else if level == 1 {
        0x5f
    } else if level == 2 {
        0x87
    } else if level == 3 {
        0xaf
    } else if level == 4 {
        0xd7
    } else {
        0xff
    }
}

/// The colours of the 256-colour palette from index 16 on: a colour cube of
/// six levels each, then 24 shades of grey.
pub open spec fn spec_palette(idx: u8) -> Rgba
    recommends
        idx >= 16,
{
    if idx <= 231 {
        let i = (idx - 16) as u8;
        Rgba::spec_rgb(spec_cube(i / 36), spec_cube(i / 6 % 6), spec_cube(i % 6))
    } else {
        let gray = ((idx - 232) * 10 + 8) as u8;
        Rgba::spec_rgb(gray, gray, gray)
    }
}

/// A colour scheme as a mathematical value.
pub struct ColorSchemeModel {
    pub fg: Rgba,
    pub bg: Rgba,
    /// The sixteen system colours.
    pub system: Seq<Rgba>,
}

impl ColorSchemeModel {
    pub open spec fn indexed_color(self, idx: u8) -> Rgba {
        if idx < 16 {
            self.system[idx as int]
        } else {
            spec_palette(idx)
        }
    }

    pub open spec fn get_color(self, vtcolor: VTColor) -> Rgba {
        match vtcolor {
            VTColor::DefaultFg => self.fg,
            VTColor::DefaultBg => self.bg,
            VTColor::Indexed(idx) => self.indexed_color(idx),
            VTColor::Rgb(r, g, b) => Rgba(r, g, b, 0xff),
        }
    }

    /// The default scheme: white on black, and the usual system colours.
    pub open spec fn initial() -> ColorSchemeModel {
        ColorSchemeModel {
            fg: Rgba::spec_rgb(0xff, 0xff, 0xff),
            bg: Rgba::spec_rgb(0, 0, 0),
            system: seq![
                Rgba::spec_rgb(0x00, 0x00, 0x00),
                Rgba::spec_rgb(0xc0, 0x00, 0x00),
                Rgba::spec_rgb(0x00, 0xc0, 0x00),
                Rgba::spec_rgb(0xc0, 0xc0, 0x00),
                Rgba::spec_rgb(0x00, 0x00, 0xc0),
                Rgba::spec_rgb(0xc0, 0x00, 0xc0),
                Rgba::spec_rgb(0x00, 0xc0, 0xc0),
                Rgba::spec_rgb(0xc0, 0xc0, 0xc0),
                Rgba::spec_rgb(0x58, 0x58, 0x58),
                Rgba::spec_rgb(0xff, 0x00, 0x00),
                Rgba::spec_rgb(0x00, 0xff, 0x00),
                Rgba::spec_rgb(0xff, 0xff, 0x00),
                Rgba::spec_rgb(0x00, 0x30, 0xff),
                Rgba::spec_rgb(0xff, 0x30, 0xff),
                Rgba::spec_rgb(0x00, 0xff, 0xff),
                Rgba::spec_rgb(0xff, 0xff, 0xff),
            ],
        }
    }
}

#[derive(Debug)]
pub struct ColorScheme {
    fg: Rgba,
    bg: Rgba,
    system: [Rgba; 16],
}

impl View for ColorScheme {
    type V = ColorSchemeModel;

    closed spec fn view(&self) -> ColorSchemeModel {
        ColorSchemeModel { fg: self.fg, bg: self.bg, system: self.system@ }
    }
}

fn cube(level: u8) -> (r: u8)
    ensures
        r == spec_cube(level),
{
    if level == 0 {
        0x00
    } else if level == 1 {
        0x5f
    } else if level == 2 {
        0x87
    } else if level == 3 {
        0xaf
    } else if level == 4 {
        0xd7
    } else {
        0xff
    }
}

impl ColorScheme {
    /// The colour of an index of the 256-colour palette.
    pub fn indexed_color(&self, idx: u8) -> (c: Rgba)
        ensures
            c == self@.indexed_color(idx),
    {
        if idx < 16 {
            // System palette
            self.system[idx as usize]
        } else if idx <= 231 {
            // 6 level RGB
            let i = idx - 16;
            let b = i % 6;
            let g = i / 6 % 6;
            let r = i / 36;
            Rgba::rgb(cube(r), cube(g), cube(b))
        } else {
            // Grayscale
            let gray = (idx - 232) * 10 + 8;
            Rgba::rgb(gray, gray, gray)
        }
    }

    /// The colour that a colour of the terminal is shown in.
    pub fn get_color(&self, vtcolor: VTColor) -> (c: Rgba)
        ensures
            c == self@.get_color(vtcolor),
    {
        match vtcolor {
            VTColor::DefaultFg => self.fg,
            VTColor::DefaultBg => self.bg,
            VTColor::Indexed(idx) => self.indexed_color(idx),
            VTColor::Rgb(r, g, b) => Rgba(r, g, b, 0xff),
        }
    }
}

impl Default for ColorScheme {
    fn default() -> (s: ColorScheme)
        ensures
            s@ == ColorSchemeModel::initial(),
    {
        let s = ColorScheme {
            fg: Rgba::rgb(0xff, 0xff, 0xff),
            bg: Rgba::default(),
            system: [
                // Base colors
                Rgba::rgb(0x00, 0x00, 0x00),
                Rgba::rgb(0xc0, 0x00, 0x00),
                Rgba::rgb(0x00, 0xc0, 0x00),
                Rgba::rgb(0xc0, 0xc0, 0x00),
                Rgba::rgb(0x00, 0x00, 0xc0),
                Rgba::rgb(0xc0, 0x00, 0xc0),
                Rgba::rgb(0x00, 0xc0, 0xc0),
                Rgba::rgb(0xc0, 0xc0, 0xc0),
                // Bright colors
                Rgba::rgb(0x58, 0x58, 0x58),
                Rgba::rgb(0xff, 0x00, 0x00),
                Rgba::rgb(0x00, 0xff, 0x00),
                Rgba::rgb(0xff, 0xff, 0x00),
                Rgba::rgb(0x00, 0x30, 0xff),
                Rgba::rgb(0xff, 0x30, 0xff),
                Rgba::rgb(0x00, 0xff, 0xff),
                Rgba::rgb(0xff, 0xff, 0xff),
            ],
        };
        proof {
            assert(s@.system =~= ColorSchemeModel::initial().system);
        }
        s
    }
}

} // verus!
