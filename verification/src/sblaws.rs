//! What is stored in the scrollback comes back: the laws that connect the
//! encoding of a line with its decoding.

use crate::cell::{CellModel, Style};
use crate::sbcodec::PieceModel;
use crate::vt::VTColor;
use vstd::prelude::*;

verus! {

/// Whether a cell's text has the shape that the screen gives it: a base
/// character that takes columns, then nothing but characters without width.
pub open spec fn shaped_cell(chars: Seq<char>) -> bool {
    &&& chars.len() >= 1
    &&& crate::width::char_columns(chars[0]) != Some(0usize)
    &&& forall|i: int|
        1 <= i < chars.len() ==> crate::width::char_columns(#[trigger] chars[i]) == Some(0usize)
}

/// Whether every cell has the shape that the screen gives it.
pub open spec fn shaped(cells: Seq<CellModel>) -> bool {
    forall|i: int| 0 <= i < cells.len() ==> shaped_cell((#[trigger] cells[i]).chars)
}

/// The text of each cell.
pub open spec fn cell_texts(cells: Seq<CellModel>) -> Seq<Seq<char>> {
    Seq::new(cells.len(), |i: int| cells[i].chars)
}

/// The pieces of `cells[from..]` as values: the text of each run of cells and
/// the style it is stored in.
pub open spec fn spec_pieces(cells: Seq<CellModel>, from: int) -> Seq<PieceModel>
    decreases cells.len() - from,
{
    if from < 0 || from >= cells.len() {
        Seq::empty()
    } else {
        let run = crate::sbcodec::spec_run_len(cells, from);
        if run < 1 || run > crate::sbcodec::PIECE_MAX || from + run > cells.len() {
            Seq::empty()
        } else {
            seq![
                PieceModel {
                    chars: crate::sbcodec::spec_cells_chars(cells.subrange(from, from + run)),
                    style: crate::sbcodec::stored_style(cells[from].style),
                },
            ] + spec_pieces(cells, from + run)
        }
    }
}

/// The text of a sequence of pieces, joined.
pub open spec fn pieces_chars(pieces: Seq<PieceModel>) -> Seq<char>
    decreases pieces.len(),
{
    if pieces.len() == 0 {
        Seq::empty()
    } else {
        pieces[0].chars + pieces_chars(pieces.drop_first())
    }
}

/// The cells as the scrollback keeps them: the text as it is, the style
/// without the rendering hints.
pub open spec fn stored_cells(cells: Seq<CellModel>) -> Seq<CellModel> {
    Seq::new(
        cells.len(),
        |i: int|
            CellModel { chars: cells[i].chars, style: crate::sbcodec::stored_style(cells[i].style) },
    )
}

proof fn lemma_flag_bits(r: u8, f: u8, b: u8, l: u8)
    by (bit_vector)
    requires
        f == 0 || f == 0x20,
        b == 0 || b == 0x40,
        l == 0 || l == 0x80,
    ensures
        ((((r & 0x1f) | f) | b) | l) & 0x1f == r & 0x1f,
        (((((r & 0x1f) | f) | b) | l) & 0x20 != 0) == (f != 0),
        (((((r & 0x1f) | f) | b) | l) & 0x40 != 0) == (b != 0),
        (((((r & 0x1f) | f) | b) | l) & 0x80 != 0) == (l != 0),
        l == 0 ==> ((((r & 0x1f) | f) | b) | l) <= 0x7f,
        l != 0 ==> ((((r & 0x1f) | f) | b) | l) >= 0x80,
        b == 0 ==> ((((r & 0x1f) | f) | b) | l) < 0xc0,
{
}

/// A stored colour reads back as itself.
pub proof fn lemma_color_roundtrip(color: VTColor)
    ensures
        crate::sbcodec::spec_color_bytes(color).len() == 4,
        crate::sbcodec::spec_color_from(
            crate::sbcodec::spec_color_bytes(color)[0],
            crate::sbcodec::spec_color_bytes(color)[1],
            crate::sbcodec::spec_color_bytes(color)[2],
            crate::sbcodec::spec_color_bytes(color)[3],
        ) == color,
{
}

/// An encoded character reads back as itself, whatever follows it.
pub proof fn lemma_scalar_prefix(ch: char, rest: Seq<u8>)
    ensures
        vstd::utf8::valid_first_scalar(vstd::utf8::encode_scalar(ch as u32) + rest),
        vstd::utf8::decode_first_scalar(vstd::utf8::encode_scalar(ch as u32) + rest) as char == ch,
        vstd::utf8::length_of_first_scalar(vstd::utf8::encode_scalar(ch as u32) + rest)
            == vstd::utf8::encode_scalar(ch as u32).len(),
        1 <= vstd::utf8::encode_scalar(ch as u32).len() <= 4,
{
    let one = seq![ch];
    let enc = vstd::utf8::encode_scalar(ch as u32);
    vstd::utf8::encode_utf8_first_scalar(one);
    assert(one.drop_first() =~= Seq::<char>::empty());
    assert(vstd::utf8::encode_utf8(one.drop_first()) =~= Seq::<u8>::empty());
    assert(vstd::utf8::encode_utf8(one) =~= enc);
    vstd::utf8::char_is_scalar(ch);
    let all = enc + rest;
    assert(forall|i: int| 0 <= i < enc.len() ==> all[i] == enc[i]);
    assert(all[0] == enc[0]);
    if enc.len() >= 2 {
        assert(all[1] == enc[1]);
    }
    if enc.len() >= 3 {
        assert(all[2] == enc[2]);
    }
    if enc.len() >= 4 {
        assert(all[3] == enc[3]);
    }
    assert(vstd::utf8::length_of_first_scalar(enc) == enc.len());
    assert(vstd::utf8::decode_first_codepoint(all) == vstd::utf8::decode_first_codepoint(enc));
    vstd::utf8::char_u32_cast(ch, ch as u32);
}

/// Nothing is a mark where a character that takes columns comes next.
pub proof fn lemma_no_mark_before_base(ch: char, rest: Seq<u8>)
    requires
        crate::width::char_columns(ch) != Some(0usize),
    ensures
        crate::sbcodec::spec_marks(vstd::utf8::encode_scalar(ch as u32) + rest) == (
            Seq::<char>::empty(),
            0int,
        ),
        crate::sbcodec::spec_marks(Seq::<u8>::empty()) == (Seq::<char>::empty(), 0int),
{
    lemma_scalar_prefix(ch, rest);
}

/// Nothing is a mark where the header of a piece comes next: the header of
/// a piece that is not the last starts like a character that takes a
/// column or like a control character, and the header of the last piece is
/// no UTF-8, as long as a last piece with a background colour holds no more
/// than 127 cells.
pub proof fn lemma_no_mark_before_header(style: Style, count: u8, last: bool, rest: Seq<u8>)
    requires
        last && style.col_bg != VTColor::DefaultBg ==> count <= crate::sbcodec::PIECE_MAX_LAST,
    ensures
        crate::sbcodec::spec_marks(crate::sbcodec::spec_header(style, count, last) + rest) == (
            Seq::<char>::empty(),
            0int,
        ),
{
    let header = crate::sbcodec::spec_header(style, count, last);
    let bytes = header + rest;
    let f = if style.col_fg != VTColor::DefaultFg {
        0x20u8
    } else {
        0u8
    };
    let b = if style.col_bg != VTColor::DefaultBg {
        0x40u8
    } else {
        0u8
    };
    let l = if last {
        0x80u8
    } else {
        0u8
    };
    lemma_flag_bits(style.rendition.bits, f, b, l);
    let flags = crate::sbcodec::spec_flags(style, last);
    assert(header[0] == flags);
    assert(header[1] == count);
    assert(bytes[0] == flags);
    assert(bytes[1] == count);
    if !last {
        assert(flags <= 0x7f);
        assert(flags & 0x7F == flags) by (bit_vector)
            requires
                flags <= 0x7f,
        ;
        assert(vstd::utf8::decode_first_scalar(bytes) == flags as u32);
        let ch = vstd::utf8::decode_first_scalar(bytes) as char;
        assert(ch as u32 == flags as u32);
    } else if style.col_bg != VTColor::DefaultBg {
        assert(!vstd::utf8::is_continuation_byte(count));
        assert(!vstd::utf8::valid_first_scalar(bytes));
    } else {
        assert(0x80 <= flags < 0xc0);
        assert(!vstd::utf8::valid_first_scalar(bytes));
    }
}

/// The marks of a cell read back as they are, up to where no mark follows.
pub proof fn lemma_marks(marks: Seq<char>, rest: Seq<u8>)
    requires
        forall|i: int|
            0 <= i < marks.len() ==> crate::width::char_columns(#[trigger] marks[i]) == Some(
                0usize,
            ),
        crate::sbcodec::spec_marks(rest) == (Seq::<char>::empty(), 0int),
    ensures
        crate::sbcodec::spec_marks(vstd::utf8::encode_utf8(marks) + rest) == (
            marks,
            vstd::utf8::encode_utf8(marks).len() as int,
        ),
    decreases marks.len(),
{
    let bytes = vstd::utf8::encode_utf8(marks) + rest;
    if marks.len() == 0 {
        assert(bytes =~= rest);
    } else {
        let enc = vstd::utf8::encode_scalar(marks[0] as u32);
        let tail = vstd::utf8::encode_utf8(marks.drop_first());
        assert(bytes =~= enc + (tail + rest));
        lemma_scalar_prefix(marks[0], tail + rest);
        assert(bytes.skip(enc.len() as int) =~= tail + rest);
        assert(forall|i: int|
            0 <= i < marks.drop_first().len() ==> marks.drop_first()[i] == marks[i + 1]);
        lemma_marks(marks.drop_first(), rest);
        assert(seq![marks[0]] + marks.drop_first() =~= marks);
    }
}

/// The joined text of cells is the text of the cells, joined.
pub proof fn lemma_flat_texts(cells: Seq<CellModel>)
    ensures
        crate::sbcodec::spec_flat(cell_texts(cells)) == crate::sbcodec::spec_cells_chars(cells),
    decreases cells.len(),
{
    if cells.len() > 0 {
        lemma_flat_texts(cells.drop_last());
        assert(cell_texts(cells).drop_last() =~= cell_texts(cells.drop_last()));
    }
}

/// The text of shaped cells reads back cell by cell, up to where no mark
/// follows.
pub proof fn lemma_take_cells(cells: Seq<CellModel>, rest: Seq<u8>)
    requires
        shaped(cells),
        crate::sbcodec::spec_marks(rest) == (Seq::<char>::empty(), 0int),
    ensures
        crate::sbcodec::spec_take_cells(
            crate::sbcodec::spec_cells_bytes(cells) + rest,
            cells.len(),
        ) == Some((cell_texts(cells), crate::sbcodec::spec_cells_bytes(cells).len() as int)),
    decreases cells.len(),
{
    let bytes = crate::sbcodec::spec_cells_bytes(cells) + rest;
    if cells.len() == 0 {
        assert(cell_texts(cells) =~= Seq::<Seq<char>>::empty());
    } else {
        let init = cells.drop_last();
        let chars = cells.last().chars;
        assert(shaped_cell(chars));
        let base = chars[0];
        let marks = chars.drop_first();
        let enc = vstd::utf8::encode_scalar(base as u32);
        let tail = vstd::utf8::encode_utf8(marks);
        assert(vstd::utf8::encode_utf8(chars) == enc + tail);
        assert(forall|i: int| 0 <= i < init.len() ==> init[i] == cells[i]);
        assert(forall|i: int| 0 <= i < marks.len() ==> marks[i] == chars[i + 1]);
        let head = crate::sbcodec::spec_cells_bytes(init);
        assert(bytes =~= head + (enc + (tail + rest)));
        lemma_no_mark_before_base(base, tail + rest);
        lemma_take_cells(init, enc + (tail + rest));
        assert(bytes.skip(head.len() as int) =~= enc + (tail + rest));
        lemma_scalar_prefix(base, tail + rest);
        assert((enc + (tail + rest)).skip(enc.len() as int) =~= tail + rest);
        lemma_marks(marks, rest);
        assert(seq![base] + marks =~= chars);
        assert(cell_texts(cells) =~= cell_texts(init).push(chars));
        assert(crate::sbcodec::spec_cells_bytes(cells).len() == head.len() + enc.len()
            + tail.len());
        assert((cells.len() - 1) as nat == init.len());
    }
}

/// An encoded piece of shaped cells reads back as its text in its stored
/// style, cell by cell, up to where no mark follows.
pub proof fn lemma_decode_piece(cells: Seq<CellModel>, style: Style, last: bool, rest: Seq<u8>)
    requires
        shaped(cells),
        cells.len() <= crate::sbcodec::PIECE_MAX,
        crate::sbcodec::spec_marks(rest) == (Seq::<char>::empty(), 0int),
    ensures
        crate::sbcodec::spec_decode_piece(
            crate::sbcodec::spec_header(style, cells.len() as u8, last)
                + crate::sbcodec::spec_cells_bytes(cells) + rest,
        ) == Some(
            (
                PieceModel {
                    chars: crate::sbcodec::spec_cells_chars(cells),
                    style: crate::sbcodec::stored_style(style),
                },
                cell_texts(cells),
                last || cells.len() == 0,
                (crate::sbcodec::spec_header(style, cells.len() as u8, last).len()
                    + crate::sbcodec::spec_cells_bytes(cells).len()) as int,
            ),
        ),
        crate::sbcodec::spec_header(style, cells.len() as u8, last).len() >= 2,
{
    let header = crate::sbcodec::spec_header(style, cells.len() as u8, last);
    let text = crate::sbcodec::spec_cells_bytes(cells);
    let bytes = header + text + rest;
    let f = if style.col_fg != VTColor::DefaultFg {
        0x20u8
    } else {
        0u8
    };
    let b = if style.col_bg != VTColor::DefaultBg {
        0x40u8
    } else {
        0u8
    };
    let l = if last {
        0x80u8
    } else {
        0u8
    };
    lemma_flag_bits(style.rendition.bits, f, b, l);
    lemma_color_roundtrip(style.col_fg);
    lemma_color_roundtrip(style.col_bg);
    let flags = crate::sbcodec::spec_flags(style, last);
    assert(header[0] == flags);
    assert(bytes[0] == flags);
    assert(bytes[1] == cells.len() as u8);
    let fgb = crate::sbcodec::spec_color_bytes(style.col_fg);
    let bgb = crate::sbcodec::spec_color_bytes(style.col_bg);
    if style.col_fg != VTColor::DefaultFg {
        assert(bytes[2] == fgb[0] && bytes[3] == fgb[1] && bytes[4] == fgb[2] && bytes[5]
            == fgb[3]);
        if style.col_bg != VTColor::DefaultBg {
            assert(header.len() == 10);
            assert(bytes[6] == bgb[0] && bytes[7] == bgb[1] && bytes[8] == bgb[2] && bytes[9]
                == bgb[3]);
        } else {
            assert(header.len() == 6);
        }
    } else {
        if style.col_bg != VTColor::DefaultBg {
            assert(header.len() == 6);
            assert(bytes[2] == bgb[0] && bytes[3] == bgb[1] && bytes[4] == bgb[2] && bytes[5]
                == bgb[3]);
        } else {
            assert(header.len() == 2);
        }
    }
    assert(crate::sbcodec::spec_data_start(bytes) == Some(header.len() as int));
    assert(bytes.skip(header.len() as int) =~= text + rest);
    lemma_take_cells(cells, rest);
    lemma_flat_texts(cells);
    assert((cells.len() as u8) as nat == cells.len());
    assert(crate::sbcodec::spec_header_fg(bytes) == style.col_fg);
    assert(crate::sbcodec::spec_header_bg(bytes) == style.col_bg);
    assert(crate::sbcodec::spec_piece_style(flags, style.col_fg, style.col_bg)
        == crate::sbcodec::stored_style(style));
}

/// The joined text of two stretches of cells is the joined text of the one,
/// then of the other.
pub proof fn lemma_cells_chars_concat(a: Seq<CellModel>, b: Seq<CellModel>)
    ensures
        crate::sbcodec::spec_cells_chars(a + b) == crate::sbcodec::spec_cells_chars(a)
            + crate::sbcodec::spec_cells_chars(b),
    decreases b.len(),
{
    if b.len() == 0 {
        assert(a + b =~= a);
        assert(crate::sbcodec::spec_cells_chars(a) + crate::sbcodec::spec_cells_chars(b)
            =~= crate::sbcodec::spec_cells_chars(a));
    } else {
        lemma_cells_chars_concat(a, b.drop_last());
        assert((a + b).drop_last() =~= a + b.drop_last());
        assert((a + b).last() == b.last());
        assert(crate::sbcodec::spec_cells_chars(a + b) =~= crate::sbcodec::spec_cells_chars(a)
            + crate::sbcodec::spec_cells_chars(b));
    }
}

/// The pieces of a line, joined, are the text of the line.
pub proof fn lemma_pieces_chars(cells: Seq<CellModel>, from: int)
    requires
        0 <= from <= cells.len(),
    ensures
        pieces_chars(spec_pieces(cells, from)) == crate::sbcodec::spec_cells_chars(
            cells.subrange(from, cells.len() as int),
        ),
    decreases cells.len() - from,
{
    if from >= cells.len() {
        assert(cells.subrange(from, cells.len() as int) =~= Seq::<CellModel>::empty());
    } else {
        crate::sbcodec::lemma_run_len(cells, from);
        let run = crate::sbcodec::spec_run_len(cells, from);
        lemma_pieces_chars(cells, from + run);
        let pieces = spec_pieces(cells, from);
        assert(pieces.drop_first() =~= spec_pieces(cells, from + run));
        lemma_cells_chars_concat(
            cells.subrange(from, from + run),
            cells.subrange(from + run, cells.len() as int),
        );
        assert(cells.subrange(from, from + run) + cells.subrange(from + run, cells.len() as int)
            =~= cells.subrange(from, cells.len() as int));
    }
}

/// No mark follows the cells of a piece: what follows is the end of the
/// line or the header of the next piece.
pub proof fn lemma_no_mark_after_piece(cells: Seq<CellModel>, from: int)
    requires
        0 <= from < cells.len(),
    ensures
        crate::sbcodec::spec_marks(
            crate::sbcodec::spec_encode_pieces(
                cells,
                from + crate::sbcodec::spec_run_len(cells, from),
            ),
        ) == (Seq::<char>::empty(), 0int),
{
    crate::sbcodec::lemma_run_len(cells, from);
    let next = from + crate::sbcodec::spec_run_len(cells, from);
    let rest = crate::sbcodec::spec_encode_pieces(cells, next);
    if next >= cells.len() {
        assert(rest =~= Seq::<u8>::empty());
        lemma_no_mark_before_base(' ', Seq::empty());
    } else {
        crate::sbcodec::lemma_run_len(cells, next);
        let count = crate::sbcodec::spec_run_len(cells, next);
        let more = crate::sbcodec::spec_cells_bytes(cells.subrange(next, next + count))
            + crate::sbcodec::spec_encode_pieces(cells, next + count);
        assert(rest =~= crate::sbcodec::spec_header(
            cells[next].style,
            count as u8,
            next + count >= cells.len(),
        ) + more);
        lemma_no_mark_before_header(
            cells[next].style,
            count as u8,
            next + count >= cells.len(),
            more,
        );
    }
}

/// The first of the pieces of shaped cells reads back as it was written,
/// and what is left to read are the pieces after it.
pub proof fn lemma_first_piece(cells: Seq<CellModel>, from: int)
    requires
        shaped(cells),
        0 <= from < cells.len(),
    ensures
        ({
            let run = crate::sbcodec::spec_run_len(cells, from);
            let part = cells.subrange(from, from + run);
            let bytes = crate::sbcodec::spec_encode_pieces(cells, from);
            let rest = crate::sbcodec::spec_encode_pieces(cells, from + run);
            let used = bytes.len() - rest.len();
            &&& 1 <= run <= crate::sbcodec::PIECE_MAX
            &&& from + run <= cells.len()
            &&& 2 <= used <= bytes.len()
            &&& bytes.skip(used) == rest
            &&& crate::sbcodec::spec_decode_piece(bytes) == Some(
                (
                    PieceModel {
                        chars: crate::sbcodec::spec_cells_chars(part),
                        style: crate::sbcodec::stored_style(cells[from].style),
                    },
                    cell_texts(part),
                    from + run >= cells.len(),
                    used,
                ),
            )
        }),
{
    crate::sbcodec::lemma_run_len(cells, from);
    let run = crate::sbcodec::spec_run_len(cells, from);
    let part = cells.subrange(from, from + run);
    let last = from + run >= cells.len();
    let rest = crate::sbcodec::spec_encode_pieces(cells, from + run);
    let header = crate::sbcodec::spec_header(cells[from].style, run as u8, last);
    let text = crate::sbcodec::spec_cells_bytes(part);
    let bytes = crate::sbcodec::spec_encode_pieces(cells, from);
    assert(bytes == header + text + rest);
    assert(forall|i: int| 0 <= i < part.len() ==> part[i] == cells[from + i]);
    assert(run as u8 == part.len() as u8);
    lemma_no_mark_after_piece(cells, from);
    lemma_decode_piece(part, cells[from].style, last, rest);
    let used = (header.len() + text.len()) as int;
    assert(bytes.skip(used) =~= rest);
}

/// The pieces of shaped cells read back as they were written.
pub proof fn lemma_decode_pieces(cells: Seq<CellModel>, from: int)
    requires
        shaped(cells),
        0 <= from < cells.len(),
    ensures
        crate::sbcodec::spec_decode_line(crate::sbcodec::spec_encode_pieces(cells, from))
            == spec_pieces(cells, from),
    decreases cells.len() - from,
{
    lemma_first_piece(cells, from);
    let run = crate::sbcodec::spec_run_len(cells, from);
    if from + run >= cells.len() {
        assert(spec_pieces(cells, from + run) =~= Seq::<PieceModel>::empty());
    } else {
        lemma_decode_pieces(cells, from + run);
    }
}

/// The cells of shaped cells read back as they were written, each with its
/// text and in its stored style.
pub proof fn lemma_decode_cells(cells: Seq<CellModel>, from: int)
    requires
        shaped(cells),
        0 <= from < cells.len(),
    ensures
        crate::sbcodec::spec_decode_cells(crate::sbcodec::spec_encode_pieces(cells, from))
            == stored_cells(cells).skip(from),
    decreases cells.len() - from,
{
    lemma_first_piece(cells, from);
    let run = crate::sbcodec::spec_run_len(cells, from);
    crate::sbcodec::lemma_run_len(cells, from);
    let part = cells.subrange(from, from + run);
    let texts = cell_texts(part);
    let head = Seq::new(
        texts.len(),
        |i: int|
            CellModel { chars: texts[i], style: crate::sbcodec::stored_style(cells[from].style) },
    );
    assert forall|i: int| 0 <= i < run implies #[trigger] head[i] == stored_cells(cells)[from
        + i] by {
        assert(part[i] == cells[from + i]);
    }
    if from + run >= cells.len() {
        assert(head =~= stored_cells(cells).skip(from));
    } else {
        lemma_decode_cells(cells, from + run);
        assert(head + stored_cells(cells).skip(from + run) =~= stored_cells(cells).skip(from));
    }
}

/// Trimming keeps a prefix of the line whose last cell, if any, is not empty.
pub proof fn lemma_trim_len(cells: Seq<CellModel>)
    ensures
        crate::sbcodec::spec_trim_len(cells) <= cells.len(),
        crate::sbcodec::spec_trim_len(cells) > 0 ==> !cells[crate::sbcodec::spec_trim_len(cells)
            - 1].is_empty(),
        forall|i: int|
            crate::sbcodec::spec_trim_len(cells) <= i < cells.len() ==> (#[trigger] cells[i]).is_empty(),
    decreases cells.len(),
{
    if cells.len() > 0 && cells.last().is_empty() {
        lemma_trim_len(cells.drop_last());
        assert(forall|i: int| 0 <= i < cells.len() - 1 ==> cells.drop_last()[i] == cells[i]);
    }
}

/// Storing a line and reading it back preserves its cells. Where every cell
/// that is left after trimming has the shape that the screen gives it, a
/// base character and then combining marks, the bytes read back as exactly
/// those cells, each with its text and in its style but for the rendering
/// hints; the pieces read back are the runs of those cells; and their text
/// joined is the text of the trimmed line.
pub proof fn lemma_line_roundtrip(cells: Seq<CellModel>)
    requires
        shaped(crate::sbcodec::spec_trimmed(cells)),
    ensures
        crate::sbcodec::spec_decode_cells(crate::sbcodec::spec_encode_line(cells)) == stored_cells(
            crate::sbcodec::spec_trimmed(cells),
        ),
        crate::sbcodec::spec_decode_line(crate::sbcodec::spec_encode_line(cells)) == spec_pieces(
            crate::sbcodec::spec_trimmed(cells),
            0,
        ),
        pieces_chars(crate::sbcodec::spec_decode_line(crate::sbcodec::spec_encode_line(cells)))
            == crate::sbcodec::spec_cells_chars(crate::sbcodec::spec_trimmed(cells)),
{
    let kept = crate::sbcodec::spec_trimmed(cells);
    lemma_trim_len(cells);
    if crate::sbcodec::spec_trim_len(cells) == 0 {
        let bytes = seq![crate::sbcodec::SB_LAST, 0u8];
        assert(bytes[0] == 0x80 && bytes[1] == 0);
        assert(0x80u8 & 0x20 == 0 && 0x80u8 & 0x40 == 0) by (bit_vector);
        assert(crate::sbcodec::spec_data_start(bytes) == Some(2int));
        assert(crate::sbcodec::spec_take_cells(bytes.skip(2), 0) == Some(
            (Seq::<Seq<char>>::empty(), 0int),
        ));
        assert(crate::sbcodec::spec_decode_line(bytes) =~= Seq::<PieceModel>::empty());
        assert(crate::sbcodec::spec_decode_cells(bytes) =~= Seq::<CellModel>::empty());
        assert(stored_cells(kept) =~= Seq::<CellModel>::empty());
        assert(kept =~= Seq::<CellModel>::empty());
    } else {
        lemma_decode_pieces(kept, 0);
        lemma_decode_cells(kept, 0);
        lemma_pieces_chars(kept, 0);
        assert(stored_cells(kept).skip(0) =~= stored_cells(kept));
        assert(kept.subrange(0, kept.len() as int) =~= kept);
    }
}

/// A chunk with one more line holds the lines it held, then the new one.
pub proof fn lemma_chunk_append_lines(chunk: crate::scrollback::ChunkModel, bytes: Seq<u8>)
    requires
        chunk.wf(),
        chunk.data.len() + bytes.len() <= usize::MAX,
    ensures
        chunk.append(bytes).lines() == chunk.lines().push(bytes),
{
    let more = chunk.append(bytes);
    let n = chunk.starts.len() as int;
    assert(more.starts.len() == n + 1);
    assert forall|k: int| 0 <= k < n + 1 implies #[trigger] more.lines()[k] == chunk.lines().push(
        bytes,
    )[k] by {
        if k < n {
            assert(more.starts[k] == chunk.starts[k]);
            assert(chunk.starts[k] <= chunk.starts[n - 1]);
            if k + 1 < n {
                assert(more.starts[k + 1] == chunk.starts[k + 1]);
                assert(chunk.starts[k + 1] <= chunk.starts[n - 1]);
            } else {
                assert(more.starts[k + 1] == chunk.data.len());
            }
            assert(more.line(k) =~= chunk.line(k));
        } else {
            assert(more.line(k) =~= bytes);
        }
    }
    assert(more.lines() =~= chunk.lines().push(bytes));
}

/// Before anything is evicted, a scrollback with one more line holds the
/// lines it held, then the new one.
pub proof fn lemma_appended_lines(v: crate::scrollback::ScrollbackModel, bytes: Seq<u8>)
    requires
        v.wf(),
    ensures
        v.appended(bytes).lines() == v.lines().push(bytes),
        v.appended(bytes).chunks.len() > 0,
        v.appended(bytes).chunks.last().lines().len() > 0,
        v.appended(bytes).chunks.last().lines().last() == bytes,
{
    let w = v.appended(bytes);
    if v.chunks.len() > 0 && bytes.len() <= v.chunks.last().free() {
        let last = v.chunks.last();
        lemma_chunk_append_lines(last, bytes);
        assert(w.chunks.drop_last() =~= v.chunks.drop_last());
        assert(w.lines() =~= v.lines().push(bytes));
    } else {
        let fresh = crate::scrollback::ChunkModel::first(bytes);
        assert(w.chunks.drop_last() =~= v.chunks);
        assert(fresh.lines() =~= seq![bytes]) by {
            assert(fresh.line(0) =~= bytes);
        }
        assert(w.lines() =~= v.lines().push(bytes));
    }
}

/// Eviction takes chunks from the front only: what is left, if anything is
/// left, ends with the chunk that was the newest.
pub proof fn lemma_evicted_keeps_newest(v: crate::scrollback::ScrollbackModel)
    ensures
        v.evicted().chunks.len() <= v.chunks.len(),
        v.evicted().chunks.len() > 0 ==> v.evicted().chunks.last() == v.chunks.last(),
        v.evicted().chunks == v.chunks.skip(v.chunks.len() - v.evicted().chunks.len()),
    decreases v.chunks.len(),
{
    if v.mem_size() > v.mem_cap && v.chunks.len() > 0 {
        let next = crate::scrollback::ScrollbackModel {
            chunks: v.chunks.drop_first(),
            mem_cap: v.mem_cap,
        };
        lemma_evicted_keeps_newest(next);
        let kept = v.evicted().chunks.len() as int;
        assert(next.chunks.skip(next.chunks.len() - kept) =~= v.chunks.skip(v.chunks.len() - kept));
    } else {
        assert(v.chunks.skip(0) =~= v.chunks);
    }
}

/// The lines of a sequence of chunks that is not empty end with the lines
/// of its last chunk.
pub proof fn lemma_last_line(chunks: Seq<crate::scrollback::ChunkModel>)
    requires
        chunks.len() > 0,
        chunks.last().lines().len() > 0,
    ensures
        crate::scrollback::chunks_lines(chunks).len() > 0,
        crate::scrollback::chunks_lines(chunks).last() == chunks.last().lines().last(),
{
}

/// A line that was pushed is the newest line of the scrollback, unless the
/// memory cap left room for nothing at all; and read back it gives the cells
/// of the line: where every cell that is left after trimming has the shape
/// that the screen gives it, the newest line reads back as exactly those
/// cells in their stored styles, and its pieces, joined, are the text of the
/// trimmed line.
pub proof fn lemma_pushed_line_reads_back(
    v: crate::scrollback::ScrollbackModel,
    line: crate::line::LineModel,
)
    requires
        v.wf(),
        shaped(crate::sbcodec::spec_trimmed(line.cells)),
    ensures
        v.push(line).chunks.len() > 0 ==> {
            let newest = v.push(line).lines().len() - 1;
            &&& newest >= 0
            &&& v.push(line).lines()[newest] == crate::sbcodec::spec_encode_line(line.cells)
            &&& crate::sbcodec::spec_decode_cells(v.push(line).lines()[newest]) == stored_cells(
                crate::sbcodec::spec_trimmed(line.cells),
            )
            &&& v.push(line).pieces(newest) == spec_pieces(
                crate::sbcodec::spec_trimmed(line.cells),
                0,
            )
            &&& pieces_chars(v.push(line).pieces(newest)) == crate::sbcodec::spec_cells_chars(
                crate::sbcodec::spec_trimmed(line.cells),
            )
        },
{
    let bytes = crate::sbcodec::spec_encode_line(line.cells);
    let more = v.appended(bytes);
    lemma_appended_lines(v, bytes);
    lemma_evicted_keeps_newest(more);
    lemma_line_roundtrip(line.cells);
    if v.push(line).chunks.len() > 0 {
        lemma_last_line(v.push(line).chunks);
    }
}

/// Without its oldest chunk a scrollback holds the same lines but for the
/// lines of that chunk.
pub proof fn lemma_drop_first_lines(chunks: Seq<crate::scrollback::ChunkModel>)
    requires
        chunks.len() > 0,
    ensures
        crate::scrollback::chunks_lines(chunks.drop_first()) == crate::scrollback::chunks_lines(
            chunks,
        ).skip(chunks[0].lines().len() as int),
    decreases chunks.len(),
{
    let all = crate::scrollback::chunks_lines(chunks);
    let first = chunks[0].lines();
    if chunks.len() == 1 {
        assert(chunks.drop_last() =~= Seq::<crate::scrollback::ChunkModel>::empty());
        assert(crate::scrollback::chunks_lines(chunks.drop_last()) =~= Seq::<Seq<u8>>::empty());
        assert(chunks.drop_first() =~= Seq::<crate::scrollback::ChunkModel>::empty());
        assert(all =~= first);
        assert(crate::scrollback::chunks_lines(chunks.drop_first()) =~= all.skip(
            first.len() as int,
        ));
    } else {
        let init = chunks.drop_last();
        lemma_drop_first_lines(init);
        assert(init[0] == chunks[0]);
        assert(chunks.drop_first().drop_last() =~= init.drop_first());
        assert(chunks.drop_first().last() == chunks.last());
        let head = crate::scrollback::chunks_lines(init);
        assert(all == head + chunks.last().lines());
        assert(first.len() <= head.len()) by {
            lemma_first_chunk_lines(init);
        }
        assert(head.skip(first.len() as int) + chunks.last().lines() =~= all.skip(
            first.len() as int,
        ));
    }
}

/// The lines of a sequence of chunks start with the lines of its first chunk.
pub proof fn lemma_first_chunk_lines(chunks: Seq<crate::scrollback::ChunkModel>)
    requires
        chunks.len() > 0,
    ensures
        chunks[0].lines().len() <= crate::scrollback::chunks_lines(chunks).len(),
    decreases chunks.len(),
{
    if chunks.len() == 1 {
        assert(chunks.drop_last() =~= Seq::<crate::scrollback::ChunkModel>::empty());
        assert(crate::scrollback::chunks_lines(chunks.drop_last()) =~= Seq::<Seq<u8>>::empty());
    } else {
        lemma_first_chunk_lines(chunks.drop_last());
        assert(chunks.drop_last()[0] == chunks[0]);
    }
}

/// Eviction never alters a line: the lines that are left are the newest of
/// the lines there were, in order.
pub proof fn lemma_evicted_lines(v: crate::scrollback::ScrollbackModel)
    ensures
        v.evicted().lines().len() <= v.lines().len(),
        v.evicted().lines() == v.lines().skip(v.lines().len() - v.evicted().lines().len()),
    decreases v.chunks.len(),
{
    if v.mem_size() > v.mem_cap && v.chunks.len() > 0 {
        let next = crate::scrollback::ScrollbackModel {
            chunks: v.chunks.drop_first(),
            mem_cap: v.mem_cap,
        };
        lemma_evicted_lines(next);
        lemma_drop_first_lines(v.chunks);
        lemma_first_chunk_lines(v.chunks);
        let kept = v.evicted().lines().len() as int;
        assert(next.lines().skip(next.lines().len() - kept) =~= v.lines().skip(
            v.lines().len() - kept,
        ));
    } else {
        assert(v.lines().skip(0) =~= v.lines());
    }
}

/// Pushing a line never alters a stored line: afterwards the scrollback
/// holds the newest of the lines it held and of the new one, in order.
pub proof fn lemma_push_keeps_lines(
    v: crate::scrollback::ScrollbackModel,
    line: crate::line::LineModel,
)
    requires
        v.wf(),
    ensures
        v.push(line).lines().len() <= v.lines().len() + 1,
        v.push(line).lines() == v.lines().push(crate::sbcodec::spec_encode_line(line.cells)).skip(
            v.lines().len() + 1 - v.push(line).lines().len(),
        ),
{
    let bytes = crate::sbcodec::spec_encode_line(line.cells);
    lemma_appended_lines(v, bytes);
    lemma_evicted_lines(v.appended(bytes));
}

} // verus!
