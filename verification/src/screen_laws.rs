//! Laws of the screen: what holds of its verbs on every screen.

use crate::cell::CellModel;
use crate::screen_model::ScreenModel;
use crate::vt::{VTColor, VTRendition, VTVerb};
use vstd::prelude::*;

verus! {

/// Whether a verb only moves the cursor or scrolls.
pub open spec fn is_motion(verb: VTVerb) -> bool {
    verb is CursorSet || verb is CursorMove || verb is Tab || verb is Index || verb is Newline
        || verb is NextLine || verb is Scroll || verb is ScrollAtCursor
}

proof fn lemma_origin_bit(bits: u8)
    by (bit_vector)
    ensures
        (bits | 0x02) & 0x02 == 0x02,
        (bits & !0x02u8) & 0x02 != 0x02,
{
}

proof fn lemma_plain_rendition(bits: u8)
    by (bit_vector)
    requires
        bits & !(0x1fu8 | 0x40u8) == 0,
    ensures
        ((bits & !0x1fu8) | 0x40) | 0x40 == 0x40,
        ((bits & !0x1fu8) | 0x40) & 0x20 != 0x20,
{
}

/// A motion leaves the saved cursor and the size of the screen alone.
pub proof fn lemma_motion_keeps_saved_cursor(v: ScreenModel, verb: VTVerb)
    requires
        is_motion(verb),
    ensures
        v.act(verb).cursor_saved == v.cursor_saved,
        v.act(verb).size == v.size,
{
}

/// Saving the cursor, moving about, and loading it brings the cursor back
/// to where it was saved and restores the origin mode as it was then:
/// whatever happened in between, as long as the saved cursor and the size of
/// the screen are the same.
pub proof fn lemma_cursor_save_load(v: ScreenModel, moved: ScreenModel)
    requires
        v.wf(),
        moved.cursor_saved == v.cursor_save().cursor_saved,
        moved.size == v.size,
    ensures
        moved.cursor_load().cursor.x == v.cursor.x,
        moved.cursor_load().cursor.y == v.cursor.y,
        moved.cursor_load().cursor.style == v.cursor.style,
        moved.cursor_load().cursor.charset == v.cursor.charset,
        moved.cursor_load().mode.has(crate::vt::MODE_ORIGIN) == v.mode.has(
            crate::vt::MODE_ORIGIN,
        ),
{
    lemma_origin_bit(moved.mode.bits);
}

/// Whatever scrolling region is set, setting it to the defaults gives the
/// whole screen.
pub proof fn lemma_scroll_region_reset(v: ScreenModel, top: u32, bottom: u32)
    requires
        v.wf(),
    ensures
        v.set_scroll_region(top, bottom).set_scroll_region(0, 0).scroll_rg == (
            0u32,
            (v.rows() - 1) as u32,
        ),
        v.set_scroll_region(top, bottom).wf(),
{
}

/// Making room for a glyph leaves the cursor's style, the modes and the
/// size alone; the cursor then has the room.
pub proof fn lemma_glyph_room(v: ScreenModel, width: int)
    requires
        v.wf(),
        1 <= width <= 2,
    ensures
        v.glyph_room(width).cursor.style == v.cursor.style,
        v.glyph_room(width).mode == v.mode,
        v.glyph_room(width).size == v.size,
        v.glyph_room(width).lines.len() == v.lines.len(),
        !v.glyph_room(width).cursor.wrap_next,
        v.glyph_room(width).cursor.x + width <= v.cols(),
        v.glyph_room(width).cursor.y < v.rows(),
        forall|i: int|
            0 <= i < v.lines.len() ==> (#[trigger] v.glyph_room(width).lines[i]).cells.len()
                == v.cols(),
{
}

/// Where a glyph of one or two columns lands, and what is there afterwards:
/// the character, freshly written in the cursor's style, marked wide if it
/// takes two columns.
pub proof fn lemma_put_glyph_lands(v: ScreenModel, ch: char, width: usize)
    requires
        v.wf(),
        1 <= width <= 2,
    ensures
        ({
            let at = v.glyph_room(width as int).cursor;
            let cell = v.put_glyph(ch, Some(width)).lines[at.y as int].cells[at.x as int];
            &&& cell.chars == seq![ch]
            &&& cell.style.col_fg == v.cursor.style.col_fg
            &&& cell.style.col_bg == v.cursor.style.col_bg
            &&& cell.style.rendition.bits == if width == 2 {
                v.cursor.style.rendition.bits | crate::vt::RENDITION_DIRTY
                    | crate::vt::RENDITION_WIDE
            } else {
                v.cursor.style.rendition.bits | crate::vt::RENDITION_DIRTY
            }
        }),
{
    lemma_glyph_room(v, width as int);
    let room = v.glyph_room(width as int);
    let prepared = room.unhalve().insert_room();
    assert(prepared.cursor == room.cursor);
    assert(prepared.size == room.size);
    assert(prepared.lines.len() == room.lines.len());
    assert(prepared.lines[room.cursor.y as int].cells.len() == v.cols());
}

/// The screen after the three verbs of SGR 0: every attribute that SGR can
/// switch is off, and both colours are the defaults.
pub open spec fn after_sgr_reset(v: ScreenModel) -> ScreenModel {
    v.act(VTVerb::SetRendition(VTRendition { bits: crate::vt::RENDITION_ALL }, false)).act(
        VTVerb::SetFg(VTColor::DefaultFg),
    ).act(VTVerb::SetBg(VTColor::DefaultBg))
}

/// Whether the cursor's rendition holds nothing but what SGR can switch and
/// the dirty hint: no hint that only cells carry.
pub open spec fn plain_cursor(v: ScreenModel) -> bool {
    v.cursor.style.rendition.bits & !(crate::vt::RENDITION_ALL | crate::vt::RENDITION_DIRTY) == 0
}

proof fn lemma_plain_bits(bits: u8, mask: u8)
    by (bit_vector)
    requires
        bits & !(0x1fu8 | 0x40u8) == 0,
        mask & !0x1fu8 == 0,
    ensures
        (bits | mask) & !(0x1fu8 | 0x40u8) == 0,
        (bits & !mask) & !(0x1fu8 | 0x40u8) == 0,
{
}

proof fn lemma_reset_bits(bits: u8)
    by (bit_vector)
    ensures
        ((bits & !0x1fu8) | 0x40) & 0x1f == 0,
{
}

/// A screen that was just switched on has a plain cursor, and whatever SGR
/// asks for keeps it plain: switching attributes and setting colours.
pub proof fn lemma_sgr_keeps_plain_cursor(v: ScreenModel, verb: VTVerb)
    requires
        plain_cursor(v),
        match verb {
            VTVerb::SetRendition(rend, _) => rend.bits & !crate::vt::RENDITION_ALL == 0,
            VTVerb::SetFg(_) => true,
            VTVerb::SetBg(_) => true,
            _ => false,
        },
    ensures
        plain_cursor(v.act(verb)),
        plain_cursor(ScreenModel::initial(v.size)),
{
    match verb {
        VTVerb::SetRendition(rend, _) => {
            lemma_plain_bits(v.cursor.style.rendition.bits, rend.bits);
        },
        _ => {},
    }
    assert(0x40u8 & !(0x1fu8 | 0x40u8) == 0) by (bit_vector);
}

/// After SGR 0 a character is written in the default style. Whatever
/// colours and attributes were set before, the next character of one column
/// lands in a cell with the default colours and with none of the attributes
/// that SGR can switch; where the cursor is plain, as SGR leaves it, that is
/// the default style.
#[verifier::rlimit(60)]
pub proof fn lemma_sgr_reset_writes_default_style(v: ScreenModel, ch: char)
    requires
        v.wf(),
    ensures
        ({
            let reset = after_sgr_reset(v);
            let at = reset.glyph_room(1).cursor;
            let cell = reset.put_glyph(ch, Some(1)).lines[at.y as int].cells[at.x as int];
            &&& cell.chars == seq![ch]
            &&& cell.style.col_fg == VTColor::DefaultFg
            &&& cell.style.col_bg == VTColor::DefaultBg
            &&& cell.style.rendition.bits & crate::vt::RENDITION_ALL == 0
            &&& plain_cursor(v) ==> cell.style.spec_is_default()
        }),
{
    let reset = after_sgr_reset(v);
    let bits = v.cursor.style.rendition.bits;
    assert(reset.cursor.style.rendition.bits == bits & !crate::vt::RENDITION_ALL);
    assert(reset.cursor.style.col_fg == VTColor::DefaultFg);
    assert(reset.cursor.style.col_bg == VTColor::DefaultBg);
    assert(reset.wf());
    lemma_put_glyph_lands(reset, ch, 1);
    lemma_reset_bits(bits);
    if plain_cursor(v) {
        lemma_plain_rendition(bits);
        assert((bits & !0x1fu8) | 0x40 == ((bits & !0x1fu8) | 0x40) | 0x40) by (bit_vector);
    }
}

/// Without auto-wrap, writing at or beyond the last column overwrites the
/// last cell, and the cursor stays on the last column.
pub proof fn lemma_no_wrap_overwrites_last_cell(v: ScreenModel, ch: char)
    requires
        v.wf(),
        !v.mode.has(crate::vt::MODE_WRAP),
        v.cursor.x == v.cols() - 1,
    ensures
        v.put_glyph(ch, Some(1)).cursor.x == v.cols() - 1,
        v.put_glyph(ch, Some(1)).cursor.y == v.cursor.y,
        v.put_glyph(ch, Some(1)).lines[v.cursor.y as int].cells[v.cols() - 1]
            == CellModel::written(ch, v.cursor.style),
        v.put_glyph(ch, Some(1)).wf(),
{
    let room = v.glyph_room(1);
    assert(room.cursor.x == v.cols() - 1);
    assert(room.cursor.y == v.cursor.y);
    let prepared = room.unhalve().insert_room();
    assert(prepared.lines[v.cursor.y as int].cells.len() == v.cols());
}

/// With auto-wrap, once a character was written in the last column the next
/// one goes to a new line first and is written at its first column.
pub proof fn lemma_wrap_goes_to_next_line(v: ScreenModel, ch: char)
    requires
        v.wf(),
        v.mode.has(crate::vt::MODE_WRAP),
        v.cursor_in_sr(),
        v.cursor.wrap_next,
    ensures
        v.put_glyph(ch, Some(1)).cursor.y == v.newline().cursor.y,
        v.put_glyph(ch, Some(1)).cursor.x == 1,
        v.put_glyph(ch, Some(1)).lines[v.newline().cursor.y as int].cells[0] == CellModel::written(
            ch,
            v.cursor.style,
        ),
{
    lemma_glyph_room(v, 1);
    let room = v.glyph_room(1);
    assert(room == v.newline().with_x(0));
    let prepared = room.unhalve().insert_room();
    assert(prepared.cursor == room.cursor);
    assert(prepared.lines[room.cursor.y as int].cells.len() == v.cols());
}

/// A character of two columns that arrives on the last column wraps: with
/// auto-wrap on and the cursor inside the scrolling region it is written at
/// the start of a new line.
pub proof fn lemma_wide_char_wraps_at_last_column(v: ScreenModel, ch: char)
    requires
        v.wf(),
        v.mode.has(crate::vt::MODE_WRAP),
        v.cursor_in_sr(),
        v.cursor.x == v.cols() - 1,
    ensures
        v.put_glyph(ch, Some(2)).cursor.y == v.newline().cursor.y,
        v.put_glyph(ch, Some(2)).cursor.x == 2,
        v.put_glyph(ch, Some(2)).lines[v.newline().cursor.y as int].cells[0].chars == seq![ch],
        v.put_glyph(ch, Some(2)).lines[v.newline().cursor.y as int].cells[0].style.rendition.spec_contains(
            VTRendition { bits: crate::vt::RENDITION_WIDE },
        ),
        v.put_glyph(ch, Some(2)).lines[v.newline().cursor.y as int].cells[1] == v.blank(),
{
    lemma_glyph_room(v, 2);
    let room = v.glyph_room(2);
    assert(room == v.newline().with_x(0));
    let prepared = room.unhalve().insert_room();
    assert(prepared.cursor == room.cursor);
    assert(prepared.lines[room.cursor.y as int].cells.len() == v.cols());
    let bits = v.cursor.style.rendition.bits;
    assert(((bits | 0x40) | 0x20) & 0x20 == 0x20) by (bit_vector);
}

/// A printable ASCII character takes one column: with the regular character
/// set active, putting it is writing a glyph of one column.
pub proof fn lemma_put_char_ascii(v: ScreenModel, ch: char)
    requires
        0x20 <= ch as u32 <= 0x7e,
        v.cursor.charset == crate::vt::VTCharset::UsAscii,
    ensures
        v.put_char(ch) == v.put_glyph(ch, Some(1usize)),
{
}

/// After SGR 0 a printable ASCII character is put on the screen in the
/// default style, whatever colours and attributes SGR had set before.
#[verifier::rlimit(80)]
pub proof fn lemma_sgr_reset_then_put_char(v: ScreenModel, ch: char)
    requires
        v.wf(),
        plain_cursor(v),
        0x20 <= ch as u32 <= 0x7e,
        v.cursor.charset == crate::vt::VTCharset::UsAscii,
    ensures
        ({
            let reset = after_sgr_reset(v);
            let at = reset.glyph_room(1).cursor;
            let cell = reset.put_char(ch).lines[at.y as int].cells[at.x as int];
            cell.chars == seq![ch] && cell.style.spec_is_default()
        }),
{
    let reset = after_sgr_reset(v);
    assert(reset.cursor.charset == v.cursor.charset);
    lemma_put_char_ascii(reset, ch);
    let out = reset.put_glyph(ch, Some(1usize));
    assert(reset.put_char(ch) == out);
    lemma_sgr_reset_writes_default_style(v, ch);
}

} // verus!
