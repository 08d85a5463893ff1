//! Every cell that the screen makes has the shape that the scrollback can
//! read back: a base character that takes columns, then combining marks.

use crate::cell::{CellModel, Style};
use crate::line::LineModel;
use crate::sblaws::{shaped, shaped_cell};
use crate::screen_model::ScreenModel;
use crate::vt::{VTErase, VTVerb};
use vstd::prelude::*;

verus! {

/// Whether every cell of the screen has the shape that the screen gives
/// its cells.
pub open spec fn shaped_screen(v: ScreenModel) -> bool {
    forall|y: int| 0 <= y < v.lines.len() ==> shaped((#[trigger] v.lines[y]).cells)
}

/// Whether two screens have a grid of the same measures, and the same
/// cursor, size and modes.
pub open spec fn same_grid(v: ScreenModel, w: ScreenModel) -> bool {
    &&& w.cursor == v.cursor
    &&& w.size == v.size
    &&& w.mode == v.mode
    &&& w.lines.len() == v.lines.len()
    &&& forall|k: int|
        0 <= k < v.lines.len() ==> (#[trigger] w.lines[k]).cells.len() == v.lines[k].cells.len()
}

/// No more empty lines are counted at the bottom than the limit allows.
pub proof fn lemma_trailing_empty_bound(lines: Seq<LineModel>, limit: nat)
    ensures
        crate::screen_model::trailing_empty(lines, limit) <= limit,
        crate::screen_model::trailing_empty(lines, limit) <= lines.len(),
    decreases lines.len(),
{
    if limit > 0 && lines.len() > 0 && lines.last().is_empty() {
        lemma_trailing_empty_bound(lines.drop_last(), (limit - 1) as nat);
    }
}

/// A blank cell is shaped, and so is a line of blank cells.
pub proof fn lemma_blank_shaped(style: Style, size: nat)
    ensures
        shaped_cell(CellModel::blank(style).chars),
        shaped(LineModel::filled(CellModel::blank(style), size).cells),
{
    assert(crate::width::char_columns(' ') == Some(1usize));
}

/// A character that takes columns makes a shaped cell.
pub proof fn lemma_written_shaped(ch: char, style: Style)
    requires
        crate::width::char_columns(ch) != Some(0usize),
    ensures
        shaped_cell(CellModel::written(ch, style).chars),
{
}

/// A shaped line with some cells replaced by a shaped cell is shaped.
pub proof fn lemma_fill_shaped(line: LineModel, start: int, end: int, value: CellModel)
    requires
        shaped(line.cells),
        shaped_cell(value.chars),
    ensures
        shaped(line.fill(start, end, value).cells),
{
}

/// Replacing a cell of the cursor's line by a shaped cell keeps the screen
/// shaped.
pub proof fn lemma_with_cell_shaped(v: ScreenModel, x: int, cell: CellModel)
    requires
        shaped_screen(v),
        shaped_cell(cell.chars),
        0 <= v.cursor.y < v.lines.len(),
        0 <= x < v.lines[v.cursor.y as int].cells.len(),
    ensures
        shaped_screen(v.with_cell(x, cell)),
        same_grid(v, v.with_cell(x, cell)),
{
    let w = v.with_cell(x, cell);
    let y = v.cursor.y as int;
    assert forall|k: int| 0 <= k < w.lines.len() implies shaped((#[trigger] w.lines[k]).cells) by {
        if k == y {
            assert(shaped(v.lines[y].cells));
            assert forall|i: int| 0 <= i < w.lines[k].cells.len() implies shaped_cell(
                (#[trigger] w.lines[k].cells[i]).chars,
            ) by {
                if i != x {
                    assert(w.lines[k].cells[i] == v.lines[y].cells[i]);
                }
            }
        } else {
            assert(w.lines[k] == v.lines[k]);
        }
    }
}

/// Blanking cells of the cursor's line keeps the screen shaped.
pub proof fn lemma_blank_cells_shaped(v: ScreenModel, start: int, end: int)
    requires
        shaped_screen(v),
        0 <= v.cursor.y < v.lines.len(),
    ensures
        shaped_screen(v.blank_cells(start, end)),
        same_grid(v, v.blank_cells(start, end)),
{
    let w = v.blank_cells(start, end);
    let y = v.cursor.y as int;
    lemma_blank_shaped(v.cursor.style, 0);
    assert forall|k: int| 0 <= k < w.lines.len() implies shaped((#[trigger] w.lines[k]).cells) by {
        if k == y {
            assert(shaped(v.lines[y].cells));
            lemma_fill_shaped(v.lines[y], start, end, v.blank());
        } else {
            assert(w.lines[k] == v.lines[k]);
        }
    }
}

/// Blanking lines keeps the screen shaped.
pub proof fn lemma_blank_lines_shaped(v: ScreenModel, start: int, end: int)
    requires
        shaped_screen(v),
    ensures
        shaped_screen(v.blank_lines(start, end)),
{
    let w = v.blank_lines(start, end);
    lemma_blank_shaped(v.cursor.style, v.cols() as nat);
    assert forall|k: int| 0 <= k < w.lines.len() implies shaped((#[trigger] w.lines[k]).cells) by {
        if !(start <= k < end) {
            assert(w.lines[k] == v.lines[k]);
        }
    }
}

/// Scrolling a region keeps the screen shaped.
pub proof fn lemma_scroll_generic_shaped(v: ScreenModel, a: int, b: int, num: int)
    requires
        shaped_screen(v),
        0 <= a <= b < v.lines.len(),
    ensures
        shaped_screen(v.scroll_generic(a, b, num)),
        v.scroll_generic(a, b, num).cursor == v.cursor,
        v.scroll_generic(a, b, num).size == v.size,
        v.scroll_generic(a, b, num).mode == v.mode,
        v.scroll_generic(a, b, num).lines.len() == v.lines.len(),
{
    let w = v.scroll_generic(a, b, num);
    lemma_blank_shaped(v.cursor.style, v.cols() as nat);
    let height = b - a + 1;
    let n0 = if num >= 0 {
        num
    } else {
        -num
    };
    let n = if n0 > height {
        height
    } else {
        n0
    };
    let moved = if num >= 0 {
        v.shifted_up(a, b, n)
    } else {
        v.shifted_down(a, b, n)
    };
    assert forall|k: int| 0 <= k < moved.lines.len() implies shaped(
        (#[trigger] moved.lines[k]).cells,
    ) by {
        if a <= k <= b {
            if num >= 0 {
                if k + n <= b {
                    assert(moved.lines[k] == v.lines[k + n]);
                }
            } else {
                if k - n >= a {
                    assert(moved.lines[k] == v.lines[k - n]);
                }
            }
        } else {
            assert(moved.lines[k] == v.lines[k]);
        }
    }
    assert forall|k: int| 0 <= k < w.lines.len() implies shaped((#[trigger] w.lines[k]).cells) by {
        assert(w.lines[k].cells == moved.lines[k].cells);
    }
}

/// Moving the cursor a line, with a scroll at the edge, keeps the screen
/// shaped; so does a new line.
pub proof fn lemma_index_shaped(v: ScreenModel, forward: bool)
    requires
        v.wf(),
        shaped_screen(v),
    ensures
        shaped_screen(v.index(forward)),
        shaped_screen(v.newline()),
        shaped_screen(v.next_line()),
        shaped_screen(v.scroll(1)),
{
    let top = v.scroll_rg.0 as int;
    let bottom = v.scroll_rg.1 as int;
    lemma_scroll_generic_shaped(v, top, bottom, ScreenModel::scroll_amount(1, bottom - top + 1));
    lemma_scroll_generic_shaped(v, top, bottom, ScreenModel::scroll_amount(-1i32, bottom - top + 1));
}

/// Scrolling keeps the screen shaped.
pub proof fn lemma_scroll_shaped(v: ScreenModel, num: i32)
    requires
        v.wf(),
        shaped_screen(v),
    ensures
        shaped_screen(v.scroll(num)),
        shaped_screen(v.scroll_at_cursor(num)),
{
    let top = v.scroll_rg.0 as int;
    let bottom = v.scroll_rg.1 as int;
    let y = v.cursor.y as int;
    lemma_scroll_generic_shaped(v, top, bottom, ScreenModel::scroll_amount(num, bottom - top + 1));
    if v.cursor_in_sr() {
        lemma_scroll_generic_shaped(v, y, bottom, ScreenModel::scroll_amount(num, bottom - y + 1));
    }
}

/// Putting a character of the width that the tables give it keeps the
/// screen shaped: one without width joins a cell as a mark, one that takes
/// columns becomes the base of a cell.
pub proof fn lemma_put_glyph_shaped(v: ScreenModel, ch: char)
    requires
        v.wf(),
        shaped_screen(v),
    ensures
        shaped_screen(v.put_glyph(ch, crate::width::char_columns(ch))),
{
    let y = v.cursor.y as int;
    let x = v.cursor.x as int;
    match crate::width::char_columns(ch) {
        Some(w) => {
            if w == 0 {
                let cell = v.cell_at(x);
                assert(shaped(v.lines[y].cells));
                assert(shaped_cell(cell.chars));
                let pushed = cell.push(ch);
                assert forall|i: int| 1 <= i < pushed.chars.len() implies crate::width::char_columns(
                    #[trigger] pushed.chars[i],
                ) == Some(0usize) by {
                    if i < cell.chars.len() {
                        assert(pushed.chars[i] == cell.chars[i]);
                    }
                }
                assert(pushed.chars[0] == cell.chars[0]);
                lemma_with_cell_shaped(v, x, pushed);
            } else if w <= 2 {
                crate::screen_laws::lemma_glyph_room(v, w as int);
                lemma_index_shaped(v, true);
                let room = v.glyph_room(w as int);
                assert(shaped_screen(room));
                let row = room.cursor.y as int;
                assert(room.lines[row].cells.len() == v.cols());
                lemma_unhalve_shaped(room);
                let halved = room.unhalve();
                assert(halved.lines[row].cells.len() == v.cols());
                lemma_blank_cells_shaped(halved, halved.cursor.x + 1, halved.cols() as int);
                let prepared = halved.insert_room();
                assert(shaped_screen(prepared));
                assert(same_grid(halved, prepared));
                assert(prepared.lines[row].cells.len() == v.cols());
                lemma_write_glyph_shaped(prepared, ch, w as int);
            }
        },
        None => {},
    }
}

/// Blanking the left half of a wide glyph keeps the screen shaped.
pub proof fn lemma_unhalve_shaped(v: ScreenModel)
    requires
        shaped_screen(v),
        0 <= v.cursor.y < v.lines.len(),
        v.cursor.x < v.lines[v.cursor.y as int].cells.len(),
    ensures
        shaped_screen(v.unhalve()),
        same_grid(v, v.unhalve()),
{
    let x = v.cursor.x as int;
    if x > 0 {
        let style = v.cell_at(x - 1).style;
        lemma_blank_shaped(style, 0);
        lemma_with_cell_shaped(
            v,
            x - 1,
            CellModel {
                chars: seq![' '],
                style: Style {
                    rendition: style.rendition.spec_set(
                        crate::vt::VTRendition { bits: crate::vt::RENDITION_WIDE },
                        false,
                    ),
                    ..style
                }.with_dirty(true),
            },
        );
    }
}

/// Writing a character that takes columns keeps the screen shaped.
pub proof fn lemma_write_glyph_shaped(v: ScreenModel, ch: char, width: int)
    requires
        shaped_screen(v),
        0 <= v.cursor.y < v.lines.len(),
        1 <= width <= 2,
        v.cursor.x + width <= v.lines[v.cursor.y as int].cells.len(),
        crate::width::char_columns(ch) != Some(0usize),
    ensures
        shaped_screen(v.write_glyph(ch, width)),
{
    let x = v.cursor.x as int;
    let cell = CellModel::written(ch, v.cursor.style);
    lemma_written_shaped(ch, v.cursor.style);
    lemma_blank_shaped(v.cursor.style, 0);
    if width == 2 {
        lemma_with_cell_shaped(v, x + 1, v.blank());
        let first = v.with_cell(x + 1, v.blank());
        let wide = CellModel {
            chars: cell.chars,
            style: Style {
                rendition: cell.style.rendition.spec_set(
                    crate::vt::VTRendition { bits: crate::vt::RENDITION_WIDE },
                    true,
                ),
                ..cell.style
            },
        };
        lemma_with_cell_shaped(first, x, wide);
        let w = v.write_glyph(ch, width);
        assert(w.lines == first.with_cell(x, wide).lines);
    } else {
        lemma_with_cell_shaped(v, x, cell);
        let w = v.write_glyph(ch, width);
        assert(w.lines == v.with_cell(x, cell).lines);
    }
}

/// Erasing keeps the screen shaped.
pub proof fn lemma_erase_shaped(v: ScreenModel, kind: VTErase)
    requires
        v.wf(),
        shaped_screen(v),
    ensures
        shaped_screen(v.erase(kind)),
{
    let x = v.cursor.column();
    let y = v.cursor.y as int;
    let w = v.cols() as int;
    lemma_blank_shaped(v.cursor.style, v.cols() as nat);
    match kind {
        VTErase::All => {},
        VTErase::Above => {
            lemma_blank_cells_shaped(v, 0, x + 1);
            lemma_blank_lines_shaped(v.blank_cells(0, x + 1), 0, y);
        },
        VTErase::Below => {
            lemma_blank_cells_shaped(v, x, w);
            lemma_blank_lines_shaped(v.blank_cells(x, w), y + 1, v.rows() as int);
        },
        VTErase::Line => {
            lemma_blank_cells_shaped(v, 0, w);
        },
        VTErase::LineLeft => {
            lemma_blank_cells_shaped(v, 0, x + 1);
        },
        VTErase::LineRight => {
            lemma_blank_cells_shaped(v, x, w);
        },
        VTErase::NumChars(n) => {
            lemma_blank_cells_shaped(v, x, x + n);
        },
    }
}

/// Resizing keeps the screen shaped.
pub proof fn lemma_resize_shaped(v: ScreenModel, cols: u32, rows: u32)
    requires
        v.wf(),
        shaped_screen(v),
    ensures
        shaped_screen(v.resize(cols, rows)),
        shaped_screen(
            v.with_columns(
                crate::screen_model::spec_clamp_size(cols, crate::screen_model::SCREEN_COLS_MIN),
            ),
        ),
{
    let c = crate::screen_model::spec_clamp_size(cols, crate::screen_model::SCREEN_COLS_MIN);
    let r = crate::screen_model::spec_clamp_size(rows, crate::screen_model::SCREEN_ROWS_MIN);
    let wide = v.with_columns(c);
    assert forall|k: int| 0 <= k < wide.lines.len() implies shaped(
        (#[trigger] wide.lines[k]).cells,
    ) by {
        let line = v.lines[k];
        assert(shaped(line.cells));
        lemma_blank_shaped(
            if line.cells.len() > 0 {
                line.cells.last().style
            } else {
                Style::spec_default()
            },
            0,
        );
        assert forall|i: int| 0 <= i < wide.lines[k].cells.len() implies shaped_cell(
            (#[trigger] wide.lines[k].cells[i]).chars,
        ) by {
            if i < line.cells.len() {
                assert(wide.lines[k].cells[i] == line.cells[i]);
            }
        }
    }
    let sized = wide.with_rows(r);
    lemma_blank_shaped(wide.cursor.style, wide.cols() as nat);
    if r < wide.rows() {
        lemma_trailing_empty_bound(wide.lines, (wide.rows() - r) as nat);
    }
    assert forall|k: int| 0 <= k < sized.lines.len() implies shaped(
        (#[trigger] sized.lines[k]).cells,
    ) by {
        if r < wide.rows() {
            let top = wide.evicted_rows(r);
            if 0 <= top + k < wide.lines.len() {
                assert(sized.lines[k] == wide.lines[top + k]);
            }
        } else {
            if k < wide.lines.len() {
                assert(sized.lines[k] == wide.lines[k]);
            }
        }
    }
}

/// A screen that was just switched on is shaped, and every verb keeps it
/// so: every line that the screen can produce holds shaped cells.
pub proof fn lemma_act_shaped(v: ScreenModel, verb: VTVerb)
    requires
        v.wf(),
        shaped_screen(v),
    ensures
        shaped_screen(v.act(verb)),
        shaped_screen(ScreenModel::initial(v.size)),
{
    lemma_blank_shaped(Style::spec_default(), v.cols() as nat);
    let fresh = ScreenModel::initial(v.size);
    lemma_blank_shaped(Style::spec_default(), fresh.cols() as nat);
    assert(shaped_screen(fresh));
    match verb {
        VTVerb::PutChar(ch) => {
            lemma_put_glyph_shaped(v, v.mapped(ch));
        },
        VTVerb::PutChars(num) => {
            lemma_blank_cells_shaped(v, v.cursor.column(), v.cursor.column() + num);
        },
        VTVerb::Newline => {
            lemma_index_shaped(v, true);
        },
        VTVerb::Index(forward) => {
            lemma_index_shaped(v, forward);
        },
        VTVerb::NextLine => {
            lemma_index_shaped(v, true);
        },
        VTVerb::Erase(kind) => {
            lemma_erase_shaped(v, kind);
        },
        VTVerb::Reset => {
            assert(v.reset().lines == fresh.lines);
        },
        VTVerb::Resize(cols, rows) => {
            lemma_resize_shaped(v, cols, rows);
        },
        VTVerb::Scroll(num) => {
            lemma_scroll_shaped(v, num);
        },
        VTVerb::ScrollAtCursor(num) => {
            lemma_scroll_shaped(v, num);
        },
        VTVerb::AlignmentTest => {
            lemma_written_shaped('E', Style::spec_default());
            assert(crate::width::char_columns('E') == Some(1usize));
        },
        VTVerb::Tab(n) => {
            assert(v.tab(n).lines == v.lines);
        },
        VTVerb::CursorSet(x, y) => {
            assert(v.cursor_set(x, y).lines == v.lines);
        },
        VTVerb::CursorMove(x, y) => {
            assert(v.cursor_move(x, y).lines == v.lines);
        },
        _ => {
            assert(v.act(verb).lines == v.lines);
        },
    }
}

/// Every line of a shaped screen survives the scrollback: stored and read
/// back it gives the cells of the line without its trailing empty cells,
/// each with its text, combining marks included, and in its style but for
/// the rendering hints; and the pieces read back, joined, are the text of
/// the trimmed line.
pub proof fn lemma_screen_line_reads_back(v: ScreenModel, y: int)
    requires
        shaped_screen(v),
        0 <= y < v.lines.len(),
    ensures
        crate::sbcodec::spec_decode_cells(crate::sbcodec::spec_encode_line(v.lines[y].cells))
            == crate::sblaws::stored_cells(crate::sbcodec::spec_trimmed(v.lines[y].cells)),
        crate::sblaws::pieces_chars(
            crate::sbcodec::spec_decode_line(crate::sbcodec::spec_encode_line(v.lines[y].cells)),
        ) == crate::sbcodec::spec_cells_chars(crate::sbcodec::spec_trimmed(v.lines[y].cells)),
{
    let cells = v.lines[y].cells;
    let kept = crate::sbcodec::spec_trimmed(cells);
    crate::sblaws::lemma_trim_len(cells);
    assert(shaped(cells));
    assert forall|i: int| 0 <= i < kept.len() implies shaped_cell((#[trigger] kept[i]).chars) by {
        assert(kept[i] == cells[i]);
    }
    crate::sblaws::lemma_line_roundtrip(cells);
}

} // verus!
