//! The byte format of a scrollback line.
//!
//! A line is stored as a sequence of pieces. Each piece is
//!
//! `flags: u8 | length: u8 | [fg: 4 bytes] | [bg: 4 bytes] | UTF-8 data`
//!
//! where bits 0 to 4 of `flags` mirror the visible rendition, bit 5 and bit 6
//! say whether a foreground and a background colour follow, and bit 7 marks
//! the last piece of the line. `length` counts the cells of the piece.
//!
//! A cell is read back as one character and the characters without width
//! that follow it, its combining marks. No piece crosses a style boundary.
//! A piece holds up to 255 cells; the last piece of a line holds no more
//! than 127 if it has a background colour, so that its header cannot be
//! taken for a combining mark of the cell before it.

use crate::cell::{Cell, CellModel, Style};
use crate::line::Line;
use crate::utf8::string_push;
use crate::vt::{VTColor, VTRendition, RENDITION_ALL, RENDITION_DIRTY};
use vstd::prelude::*;

verus! {

pub const SB_HAS_FG: u8 = 0x20;
pub const SB_HAS_BG: u8 = 0x40;
pub const SB_LAST: u8 = 0x80;
/// A piece holds at most this many cells.
pub const PIECE_MAX: usize = 255;

/// The flags byte of a piece: the visible rendition bits and three
/// bookkeeping bits.
#[derive(Debug, Clone, Copy, PartialEq, Eq, Structural)]
pub struct SBRendition {
    pub bits: u8,
}

impl SBRendition {
    pub open spec fn spec_from_style(style: Style) -> SBRendition {
        SBRendition {
            bits: (style.rendition.bits & RENDITION_ALL) | (if style.col_fg != VTColor::DefaultFg {
                SB_HAS_FG
            } else {
                0u8
            }) | (if style.col_bg != VTColor::DefaultBg {
                SB_HAS_BG
            } else {
                0u8
            }),
        }
    }

    pub open spec fn spec_is_last(&self) -> bool {
        self.bits & SB_LAST != 0
    }

    pub open spec fn spec_has_fg(&self) -> bool {
        self.bits & SB_HAS_FG != 0
    }

    pub open spec fn spec_has_bg(&self) -> bool {
        self.bits & SB_HAS_BG != 0
    }

    pub open spec fn spec_header_size(&self) -> nat {
        (2 + (if self.spec_has_fg() {
            4int
        } else {
            0int
        }) + (if self.spec_has_bg() {
            4int
        } else {
            0int
        })) as nat
    }

    /// The flags that describe a style: no `LAST` bit yet.
    pub fn from_style(style: Style) -> (r: SBRendition)
        ensures
            r == Self::spec_from_style(style),
    {
        let mut bits = style.rendition.bits & RENDITION_ALL;
        if style.col_fg != VTColor::DefaultFg {
            bits = bits | SB_HAS_FG;
        }
        if style.col_bg != VTColor::DefaultBg {
            bits = bits | SB_HAS_BG;
        }
        proof {
            let r = style.rendition.bits & RENDITION_ALL;
            assert(r | 0u8 == r) by (bit_vector);
            assert(r | SB_HAS_FG | 0u8 == r | SB_HAS_FG) by (bit_vector);
        }
        SBRendition { bits }
    }

    #[verifier::when_used_as_spec(spec_is_last)]
    pub fn is_last(&self) -> (r: bool)
        ensures
            r == self.spec_is_last(),
    {
        self.bits & SB_LAST != 0
    }

    #[verifier::when_used_as_spec(spec_has_fg)]
    pub fn has_fg(&self) -> (r: bool)
        ensures
            r == self.spec_has_fg(),
    {
        self.bits & SB_HAS_FG != 0
    }

    #[verifier::when_used_as_spec(spec_has_bg)]
    pub fn has_bg(&self) -> (r: bool)
        ensures
            r == self.spec_has_bg(),
    {
        self.bits & SB_HAS_BG != 0
    }

    /// The size of a piece's header: flags and length, and the colours.
    pub fn header_size(&self) -> (r: usize)
        ensures
            r == self.spec_header_size(),
    {
        let fg: usize = if self.has_fg() {
            4
        } else {
            0
        };
        let bg: usize = if self.has_bg() {
            4
        } else {
            0
        };
        2 + fg + bg
    }
}

/// The four bytes that store a colour: a tag and up to three components.
pub open spec fn spec_color_bytes(color: VTColor) -> Seq<u8> {
    match color {
        VTColor::DefaultFg => seq![0u8, 0u8, 0u8, 0u8],
        VTColor::DefaultBg => seq![1u8, 0u8, 0u8, 0u8],
        VTColor::Indexed(i) => seq![2u8, i, 0u8, 0u8],
        VTColor::Rgb(r, g, b) => seq![3u8, r, g, b],
    }
}

/// The colour that four stored bytes stand for.
pub open spec fn spec_color_from(b0: u8, b1: u8, b2: u8, b3: u8) -> VTColor {
    if b0 == 1 {
        VTColor::DefaultBg
    } else if b0 == 2 {
        VTColor::Indexed(b1)
    } else if b0 == 3 {
        VTColor::Rgb(b1, b2, b3)
    } else {
        VTColor::DefaultFg
    }
}

impl VTColor {
    /// The four bytes that store the colour in the scrollback.
    pub fn memsb_encode(&self) -> (r: [u8; 4])
        ensures
            r@ == spec_color_bytes(*self),
    {
        let r = match self {
            VTColor::DefaultFg => [0u8, 0u8, 0u8, 0u8],
            VTColor::DefaultBg => [1u8, 0u8, 0u8, 0u8],
            VTColor::Indexed(i) => [2u8, *i, 0u8, 0u8],
            VTColor::Rgb(r, g, b) => [3u8, *r, *g, *b],
        };
        proof {
            assert(r@ =~= spec_color_bytes(*self));
        }
        r
    }

    /// The colour stored in the four bytes at `at`.
    pub fn memsb_decode(data: &[u8], at: usize) -> (c: VTColor)
        requires
            at + 4 <= data@.len(),
        ensures
            c == spec_color_from(
                data@[at as int],
                data@[at + 1],
                data@[at + 2],
                data@[at + 3],
            ),
    {
        let tag = data[at];
        if tag == 1 {
            VTColor::DefaultBg
        } else if tag == 2 {
            VTColor::Indexed(data[at + 1])
        } else if tag == 3 {
            VTColor::Rgb(data[at + 1], data[at + 2], data[at + 3])
        } else {
            VTColor::DefaultFg
        }
    }
}

/// The style as the scrollback keeps it: colours and visible rendition. The
/// rendering hints are not stored; what comes back is marked dirty.
pub open spec fn stored_style(style: Style) -> Style {
    Style {
        col_fg: style.col_fg,
        col_bg: style.col_bg,
        rendition: VTRendition { bits: (style.rendition.bits & RENDITION_ALL) | RENDITION_DIRTY },
    }
}

/// The flags byte of a piece.
pub open spec fn spec_flags(style: Style, last: bool) -> u8 {
    SBRendition::spec_from_style(style).bits | (if last {
        SB_LAST
    } else {
        0u8
    })
}

/// The header of a piece of `count` cells in `style`.
pub open spec fn spec_header(style: Style, count: u8, last: bool) -> Seq<u8> {
    seq![spec_flags(style, last), count] + (if style.col_fg != VTColor::DefaultFg {
        spec_color_bytes(style.col_fg)
    } else {
        Seq::empty()
    }) + (if style.col_bg != VTColor::DefaultBg {
        spec_color_bytes(style.col_bg)
    } else {
        Seq::empty()
    })
}

/// The concatenated UTF-8 text of some cells.
pub open spec fn spec_cells_bytes(cells: Seq<CellModel>) -> Seq<u8>
    decreases cells.len(),
{
    if cells.len() == 0 {
        Seq::empty()
    } else {
        spec_cells_bytes(cells.drop_last()) + vstd::utf8::encode_utf8(cells.last().chars)
    }
}

/// The concatenated characters of some cells.
pub open spec fn spec_cells_chars(cells: Seq<CellModel>) -> Seq<char>
    decreases cells.len(),
{
    if cells.len() == 0 {
        Seq::empty()
    } else {
        spec_cells_chars(cells.drop_last()) + cells.last().chars
    }
}

/// How many cells a line keeps when its trailing empty cells are dropped.
pub open spec fn spec_trim_len(cells: Seq<CellModel>) -> nat
    decreases cells.len(),
{
    if cells.len() == 0 {
        0
    } else if cells.last().is_empty() {
        spec_trim_len(cells.drop_last())
    } else {
        cells.len()
    }
}

/// The line without its trailing empty cells.
pub open spec fn spec_trimmed(cells: Seq<CellModel>) -> Seq<CellModel> {
    cells.take(spec_trim_len(cells) as int)
}

/// Whether `count` cells from `from` on can share one piece: they are there,
/// they are at most 255, and they all have the style of the first.
pub open spec fn same_run(cells: Seq<CellModel>, from: int, count: int) -> bool {
    &&& 0 <= from
    &&& 1 <= count <= PIECE_MAX
    &&& from + count <= cells.len()
    &&& forall|k: int| from <= k < from + count ==> (#[trigger] cells[k]).style == cells[from].style
}

/// The longest run of cells of one style that starts at cell `from`, cut at
/// 255. `count` cells are known to belong.
pub open spec fn spec_run_from(cells: Seq<CellModel>, from: int, count: int) -> int
    decreases cells.len() - from - count,
{
    if 0 <= from && 1 <= count && from + count < cells.len() && count < PIECE_MAX && cells[from
        + count].style == cells[from].style {
        spec_run_from(cells, from, count + 1)
    } else {
        count
    }
}

/// The last piece of a line, if it has a background colour, holds at most
/// this many cells: its header then cannot be taken for text.
pub const PIECE_MAX_LAST: usize = 127;

/// The length of the piece that starts at cell `from`: the longest run of
/// cells of one style, cut at 255. A run with a background colour that
/// reaches the end of the line and is longer than 127 cells is cut at 127.
pub open spec fn spec_run_len(cells: Seq<CellModel>, from: int) -> int {
    let run = spec_run_from(cells, from, 1);
    if from + run >= cells.len() && cells[from].style.col_bg != VTColor::DefaultBg && run
        > PIECE_MAX_LAST {
        PIECE_MAX_LAST as int
    } else {
        run
    }
}

/// The pieces of `cells[from..]`, which is not empty, as bytes.
pub open spec fn spec_encode_pieces(cells: Seq<CellModel>, from: int) -> Seq<u8>
    decreases cells.len() - from,
{
    if from < 0 || from >= cells.len() {
        Seq::empty()
    } else {
        let run = spec_run_len(cells, from);
        if run < 1 || run > PIECE_MAX || from + run > cells.len() {
            Seq::empty()
        } else {
            spec_header(cells[from].style, run as u8, from + run >= cells.len())
                + spec_cells_bytes(cells.subrange(from, from + run)) + spec_encode_pieces(
                cells,
                from + run,
            )
        }
    }
}

/// A line as bytes: its trailing empty cells are dropped, the rest is cut
/// into pieces. A line of which nothing is left is a single terminator.
pub open spec fn spec_encode_line(cells: Seq<CellModel>) -> Seq<u8> {
    if spec_trim_len(cells) == 0 {
        seq![SB_LAST, 0u8]
    } else {
        spec_encode_pieces(spec_trimmed(cells), 0)
    }
}

/// A piece as a mathematical value.
pub struct PieceModel {
    pub chars: Seq<char>,
    pub style: Style,
}

/// The characters of some cells, joined.
pub open spec fn spec_flat(cells: Seq<Seq<char>>) -> Seq<char>
    decreases cells.len(),
{
    if cells.len() == 0 {
        Seq::empty()
    } else {
        spec_flat(cells.drop_last()) + cells.last()
    }
}

/// The characters without width at the front of `bytes`, and the number of
/// bytes they take: the combining marks that belong to the cell before.
pub open spec fn spec_marks(bytes: Seq<u8>) -> (Seq<char>, int)
    decreases bytes.len(),
{
    let len = vstd::utf8::length_of_first_scalar(bytes);
    let ch = vstd::utf8::decode_first_scalar(bytes) as char;
    if vstd::utf8::valid_first_scalar(bytes) && 1 <= len <= bytes.len()
        && crate::width::char_columns(ch) == Some(0usize) {
        let (more, used) = spec_marks(bytes.skip(len));
        (seq![ch] + more, len + used)
    } else {
        (Seq::empty(), 0int)
    }
}

/// The first `count` cells of `bytes` and the number of bytes they take, or
/// `None` where `bytes` does not start with that many. A cell is one
/// character and the characters without width that follow it.
pub open spec fn spec_take_cells(bytes: Seq<u8>, count: nat) -> Option<(Seq<Seq<char>>, int)>
    decreases count,
{
    if count == 0 {
        Some((Seq::empty(), 0int))
    } else {
        match spec_take_cells(bytes, (count - 1) as nat) {
            Some((cells, used)) => {
                let rest = bytes.skip(used);
                let len = vstd::utf8::length_of_first_scalar(rest);
                if 0 <= used <= bytes.len() && vstd::utf8::valid_first_scalar(rest) && 1 <= len
                    <= rest.len() {
                    let (marks, more) = spec_marks(rest.skip(len));
                    Some(
                        (
                            cells.push(
                                seq![vstd::utf8::decode_first_scalar(rest) as char] + marks,
                            ),
                            used + len + more,
                        ),
                    )
                } else {
                    None
                }
            },
            None => None,
        }
    }
}

/// The style that a flags byte and the colours of a header stand for.
pub open spec fn spec_piece_style(flags: u8, fg: VTColor, bg: VTColor) -> Style {
    Style {
        col_fg: fg,
        col_bg: bg,
        rendition: VTRendition { bits: (flags & RENDITION_ALL) | RENDITION_DIRTY },
    }
}

/// Where the text of the piece at the front of `bytes` begins, if the header
/// is all there.
pub open spec fn spec_data_start(bytes: Seq<u8>) -> Option<int> {
    if bytes.len() < 2 {
        None
    } else {
        let size = (SBRendition { bits: bytes[0] }).spec_header_size();
        if bytes.len() < size {
            None
        } else {
            Some(size as int)
        }
    }
}

/// The foreground colour in the header at the front of `bytes`.
pub open spec fn spec_header_fg(bytes: Seq<u8>) -> VTColor {
    if (SBRendition { bits: bytes[0] }).spec_has_fg() {
        spec_color_from(bytes[2], bytes[3], bytes[4], bytes[5])
    } else {
        VTColor::DefaultFg
    }
}

/// The background colour in the header at the front of `bytes`.
pub open spec fn spec_header_bg(bytes: Seq<u8>) -> VTColor {
    let at = if (SBRendition { bits: bytes[0] }).spec_has_fg() {
        6int
    } else {
        2int
    };
    if (SBRendition { bits: bytes[0] }).spec_has_bg() {
        spec_color_from(bytes[at], bytes[at + 1], bytes[at + 2], bytes[at + 3])
    } else {
        VTColor::DefaultBg
    }
}

/// The piece at the front of `bytes`, the text of each of its cells, whether
/// it ends the line, and how many bytes it takes. `None` where the bytes are
/// cut short or are no UTF-8.
pub open spec fn spec_decode_piece(bytes: Seq<u8>) -> Option<
    (PieceModel, Seq<Seq<char>>, bool, int),
> {
    match spec_data_start(bytes) {
        None => None,
        Some(start) => match spec_take_cells(bytes.skip(start), bytes[1] as nat) {
            None => None,
            Some((cells, used)) => Some(
                (
                    PieceModel {
                        chars: spec_flat(cells),
                        style: spec_piece_style(
                            bytes[0],
                            spec_header_fg(bytes),
                            spec_header_bg(bytes),
                        ),
                    },
                    cells,
                    (SBRendition { bits: bytes[0] }).spec_is_last() || bytes[1] == 0,
                    start + used,
                ),
            ),
        },
    }
}

/// The pieces that `bytes` hold, up to the one marked last. A piece without
/// cells is not shown. Reading stops where the bytes make no sense.
pub open spec fn spec_decode_line(bytes: Seq<u8>) -> Seq<PieceModel>
    decreases bytes.len(),
{
    match spec_decode_piece(bytes) {
        None => Seq::empty(),
        Some((piece, cells, last, used)) => {
            let head = if cells.len() == 0 {
                Seq::empty()
            } else {
                seq![piece]
            };
            if last || used < 2 || used > bytes.len() {
                head
            } else {
                head + spec_decode_line(bytes.skip(used))
            }
        },
    }
}

/// The cells that `bytes` hold, piece by piece up to the one marked last:
/// each with its text and in the style of its piece.
pub open spec fn spec_decode_cells(bytes: Seq<u8>) -> Seq<CellModel>
    decreases bytes.len(),
{
    match spec_decode_piece(bytes) {
        None => Seq::empty(),
        Some((piece, cells, last, used)) => {
            let head = Seq::new(
                cells.len(),
                |i: int| CellModel { chars: cells[i], style: piece.style },
            );
            if last || used < 2 || used > bytes.len() {
                head
            } else {
                head + spec_decode_cells(bytes.skip(used))
            }
        },
    }
}

/// The encoding of a sequence of characters extends character by character.
pub proof fn lemma_encode_utf8_push(chars: Seq<char>, ch: char)
    ensures
        vstd::utf8::encode_utf8(chars.push(ch)) == vstd::utf8::encode_utf8(chars)
            + vstd::utf8::encode_scalar(ch as u32),
    decreases chars.len(),
{
    if chars.len() == 0 {
        let one = chars.push(ch);
        assert(one.len() == 1 && one[0] == ch);
        assert(one.drop_first() =~= Seq::<char>::empty());
        assert(vstd::utf8::encode_utf8(one.drop_first()) =~= Seq::<u8>::empty());
        assert(vstd::utf8::encode_utf8(one) == vstd::utf8::encode_scalar(ch as u32)
            + vstd::utf8::encode_utf8(one.drop_first()));
        assert(vstd::utf8::encode_utf8(chars.push(ch)) =~= vstd::utf8::encode_scalar(ch as u32));
        assert(vstd::utf8::encode_utf8(chars) =~= Seq::<u8>::empty());
        assert(vstd::utf8::encode_utf8(chars) + vstd::utf8::encode_scalar(ch as u32)
            =~= vstd::utf8::encode_scalar(ch as u32));
    } else {
        lemma_encode_utf8_push(chars.drop_first(), ch);
        assert(chars.push(ch).drop_first() =~= chars.drop_first().push(ch));
        assert(vstd::utf8::encode_utf8(chars.push(ch)) =~= vstd::utf8::encode_utf8(chars)
            + vstd::utf8::encode_scalar(ch as u32));
    }
}

/// A run that starts with `count` cells of one stored style, none too many,
/// ends as such a run.
pub proof fn lemma_run_from(cells: Seq<CellModel>, from: int, count: int)
    requires
        same_run(cells, from, count),
    ensures
        same_run(cells, from, spec_run_from(cells, from, count)),
        count <= spec_run_from(cells, from, count),
    decreases cells.len() - from - count,
{
    if from + count < cells.len() && count < PIECE_MAX && cells[from + count].style
        == cells[from].style {
        lemma_run_from(cells, from, count + 1);
    }
}

/// The piece that starts at a cell holds cells of one style, one at least
/// and 255 at most; and the last piece of a line, if it has a background
/// colour, holds 127 at most.
pub proof fn lemma_run_len(cells: Seq<CellModel>, from: int)
    requires
        0 <= from < cells.len(),
    ensures
        same_run(cells, from, spec_run_len(cells, from)),
        from + spec_run_len(cells, from) >= cells.len() && cells[from].style.col_bg
            != VTColor::DefaultBg ==> spec_run_len(cells, from) <= PIECE_MAX_LAST,
{
    assert(same_run(cells, from, 1));
    lemma_run_from(cells, from, 1);
}

/// Appends the UTF-8 encoding of `ch` to `out`.
pub fn encode_char(ch: char, out: &mut Vec<u8>)
    ensures
        final(out)@ == old(out)@ + vstd::utf8::encode_scalar(ch as u32),
{
    let c = ch as u32;
    proof {
        vstd::utf8::char_is_scalar(ch);
    }
    if c <= 0x7f {
        out.push((c & 0x7F) as u8);
    } else if c <= 0x7ff {
        out.push(0xC0 | ((c >> 6) & 0x1F) as u8);
        out.push(0x80 | (c & 0x3F) as u8);
    } else if c <= 0xffff {
        out.push(0xE0 | ((c >> 12) & 0x0F) as u8);
        out.push(0x80 | ((c >> 6) & 0x3F) as u8);
        out.push(0x80 | (c & 0x3F) as u8);
    } else {
        out.push(0xF0 | ((c >> 18) & 0x7) as u8);
        out.push(0x80 | ((c >> 12) & 0x3F) as u8);
        out.push(0x80 | ((c >> 6) & 0x3F) as u8);
        out.push(0x80 | (c & 0x3F) as u8);
    }
    proof {
        assert(out@ =~= old(out)@ + vstd::utf8::encode_scalar(c));
    }
}

/// Appends the text of the cells in `[from, to)` to `out`.
fn encode_cells(cells: &Vec<Cell>, from: usize, to: usize, out: &mut Vec<u8>)
    requires
        from <= to <= cells@.len(),
    ensures
        final(out)@ == old(out)@ + spec_cells_bytes(
            crate::line::cells_view(cells@).subrange(from as int, to as int),
        ),
{
    let ghost view = crate::line::cells_view(cells@);
    let mut k: usize = from;
    proof {
        assert(view.subrange(from as int, from as int) =~= Seq::<CellModel>::empty());
        assert(old(out)@ + Seq::<u8>::empty() =~= old(out)@);
    }
    while k < to
        invariant
            from <= k <= to,
            to <= cells@.len(),
            view == crate::line::cells_view(cells@),
            out@ == old(out)@ + spec_cells_bytes(view.subrange(from as int, k as int)),
        decreases to - k,
    {
        let ghost done = spec_cells_bytes(view.subrange(from as int, k as int));
        let cell = &cells[k];
        let ghost before = out@;
        encode_char(cell.base, out);
        proof {
            lemma_encode_utf8_push(Seq::<char>::empty(), cell.base);
            assert(Seq::<char>::empty().push(cell.base) =~= seq![cell.base]);
            assert(vstd::utf8::encode_utf8(Seq::<char>::empty()) =~= Seq::<u8>::empty());
            assert(out@ =~= before + vstd::utf8::encode_utf8(seq![cell.base]));
            assert(cell.marks@.take(0) =~= Seq::<char>::empty());
            assert(seq![cell.base] + cell.marks@.take(0) =~= seq![cell.base]);
        }
        let mut m: usize = 0;
        while m < cell.marks.len()
            invariant
                m <= cell.marks.len(),
                out@ == before + vstd::utf8::encode_utf8(
                    seq![cell.base] + cell.marks@.take(m as int),
                ),
            decreases cell.marks.len() - m,
        {
            let ghost sofar = seq![cell.base] + cell.marks@.take(m as int);
            encode_char(cell.marks[m], out);
            proof {
                lemma_encode_utf8_push(sofar, cell.marks@[m as int]);
                assert(sofar.push(cell.marks@[m as int]) =~= seq![cell.base] + cell.marks@.take(
                    m as int + 1,
                ));
                assert(out@ =~= before + (vstd::utf8::encode_utf8(sofar)
                    + vstd::utf8::encode_scalar(cell.marks@[m as int] as u32)));
            }
            m += 1;
        }
        proof {
            assert(cell.marks@.take(m as int) =~= cell.marks@);
            assert(view.subrange(from as int, k as int + 1).drop_last() =~= view.subrange(
                from as int,
                k as int,
            ));
            assert(view.subrange(from as int, k as int + 1).last() == cell@);
            assert(out@ =~= old(out)@ + (done + vstd::utf8::encode_utf8(cell@.chars)));
        }
        k += 1;
    }
}

/// A handle on one line stored in the scrollback: a stretch of a chunk.
#[derive(Debug)]
pub struct MemSBLine<'a> {
    chunk: &'a Vec<u8>,
    offset: usize,
    end: usize,
}

impl<'a> MemSBLine<'a> {
    /// How many cells at the end of the line are empty.
    pub fn trim_count(line: &Line) -> (r: usize)
        ensures
            r == line@.cells.len() - spec_trim_len(line@.cells),
    {
        let n = line.cells.len();
        let mut kept: usize = n;
        proof {
            assert(line@.cells.take(n as int) =~= line@.cells);
        }
        let mut go = true;
        while go && kept > 0
            invariant
                kept <= n,
                n == line.cells@.len(),
                spec_trim_len(line@.cells) == spec_trim_len(line@.cells.take(kept as int)),
                !go ==> kept > 0 && !line@.cells.take(kept as int).last().is_empty(),
            decreases kept + (if go { 1int } else { 0int }),
        {
            proof {
                assert(line@.cells.take(kept as int).drop_last() =~= line@.cells.take(
                    kept as int - 1,
                ));
                assert(line@.cells.take(kept as int).last() == line.cells@[kept as int - 1]@);
            }
            if line.cells[kept - 1].is_empty() {
                kept -= 1;
            } else {
                go = false;
            }
        }
        n - kept
    }

    /// The length of the piece that starts at cell `from` of the first
    /// `kept` cells.
    fn run_len(cells: &Vec<Cell>, from: usize, kept: usize) -> (r: usize)
        requires
            from < kept <= cells@.len(),
        ensures
            r == spec_run_len(crate::line::cells_view(cells@).take(kept as int), from as int),
            same_run(crate::line::cells_view(cells@).take(kept as int), from as int, r as int),
    {
        let ghost view = crate::line::cells_view(cells@).take(kept as int);
        let first = cells[from].style;
        let mut count: usize = 1;
        proof {
            assert(same_run(view, from as int, 1));
        }
        let mut go = true;
        while go && from + count < kept && count < PIECE_MAX
            invariant
                1 <= count <= PIECE_MAX,
                from + count <= kept,
                kept <= cells@.len(),
                view == crate::line::cells_view(cells@).take(kept as int),
                first == view[from as int].style,
                same_run(view, from as int, count as int),
                spec_run_from(view, from as int, 1) == spec_run_from(
                    view,
                    from as int,
                    count as int,
                ),
                !go ==> from + count < kept && view[from + count].style != first,
            decreases kept - count + (if go { 1int } else { 0int }),
        {
            if cells[from + count].style == first {
                count += 1;
            } else {
                go = false;
            }
        }
        if from + count >= kept && first.col_bg != VTColor::DefaultBg && count > PIECE_MAX_LAST {
            // Keep the header of the last piece from looking like text
            PIECE_MAX_LAST
        } else {
            count
        }
    }

    /// Appends the header of a piece of `count` cells in `style` to `out`.
    pub fn encode_piece_header(style: Style, count: u8, last: bool, out: &mut Vec<u8>)
        ensures
            final(out)@ == old(out)@ + spec_header(style, count, last),
    {
        let rend = SBRendition::from_style(style);
        let flags = if last {
            rend.bits | SB_LAST
        } else {
            rend.bits
        };
        proof {
            let b = rend.bits;
            assert(b | 0u8 == b) by (bit_vector);
        }
        out.push(flags);
        out.push(count);
        if style.col_fg != VTColor::DefaultFg {
            let bytes = style.col_fg.memsb_encode();
            out.push(bytes[0]);
            out.push(bytes[1]);
            out.push(bytes[2]);
            out.push(bytes[3]);
        }
        if style.col_bg != VTColor::DefaultBg {
            let bytes = style.col_bg.memsb_encode();
            out.push(bytes[0]);
            out.push(bytes[1]);
            out.push(bytes[2]);
            out.push(bytes[3]);
        }
        proof {
            assert(out@ =~= old(out)@ + spec_header(style, count, last));
        }
    }

    /// Appends the stored form of `line` to `out`.
    pub fn encode_line(line: &Line, out: &mut Vec<u8>)
        ensures
            final(out)@ == old(out)@ + spec_encode_line(line@.cells),
    {
        let kept = line.cells.len() - Self::trim_count(line);
        if kept == 0 {
            out.push(SB_LAST);
            out.push(0);
            proof {
                assert(out@ =~= old(out)@ + seq![SB_LAST, 0u8]);
            }
            return ;
        }
        let ghost view = crate::line::cells_view(line.cells@).take(kept as int);
        proof {
            assert(view =~= spec_trimmed(line@.cells));
        }
        let mut from: usize = 0;
        while from < kept
            invariant
                from <= kept,
                kept <= line.cells@.len(),
                view == crate::line::cells_view(line.cells@).take(kept as int),
                old(out)@ + spec_encode_pieces(view, 0) == out@ + spec_encode_pieces(
                    view,
                    from as int,
                ),
            decreases kept - from,
        {
            let ghost before = out@;
            let run = Self::run_len(&line.cells, from, kept);
            let last = from + run >= kept;
            Self::encode_piece_header(line.cells[from].style, run as u8, last, out);
            encode_cells(&line.cells, from, from + run, out);
            proof {
                assert(crate::line::cells_view(line.cells@).subrange(
                    from as int,
                    from as int + run as int,
                ) =~= view.subrange(from as int, from as int + run as int));
                let head = spec_header(view[from as int].style, run as u8, last);
                let text = spec_cells_bytes(view.subrange(from as int, from as int + run as int));
                let rest = spec_encode_pieces(view, from as int + run as int);
                assert(before + (head + text + rest) =~= (before + head + text) + rest);
            }
            from += run;
        }
        proof {
            assert(out@ + Seq::<u8>::empty() =~= out@);
        }
    }

    /// The number of bytes that `line` takes in the scrollback.
    pub fn line_size(line: &Line) -> (r: usize)
        ensures
            r == spec_encode_line(line@.cells).len(),
    {
        let mut scratch: Vec<u8> = Vec::new();
        Self::encode_line(line, &mut scratch);
        proof {
            assert(Seq::<u8>::empty() + spec_encode_line(line@.cells) =~= spec_encode_line(
                line@.cells,
            ));
        }
        scratch.len()
    }
}

/// A part of a scrollback line in which all cells share one `Style`.
#[derive(Debug, PartialEq, Eq)]
pub struct Piece {
    /// The text of this piece
    pub string: String,
    /// The `Style` to render it in
    pub style: Style,
}

impl View for Piece {
    type V = PieceModel;

    open spec fn view(&self) -> PieceModel {
        PieceModel { chars: self.string@, style: self.style }
    }
}

/// Bounds on what the payload bits of a UTF-8 sequence can add up to.
proof fn lemma_codepoint_bounds(b0: u8, b1: u8, b2: u8, b3: u8)
    ensures
        vstd::utf8::codepoint_width_1(b0) <= 0x7f,
        vstd::utf8::codepoint_width_2(b0, b1) <= 0x7ff,
        vstd::utf8::codepoint_width_3(b0, b1, b2) <= 0xffff,
{
    assert(((b0 & 0x7F) as u32) <= 0x7f) by (bit_vector);
    assert(((((b0 & 0x1F) as u32) << 6) | ((b1 & 0x3f) as u32)) <= 0x7ff) by (bit_vector);
    assert(((((b0 & 0x0F) as u32) << 12) | (((b1 & 0x3f) as u32) << 6) | ((b2 & 0x3f) as u32))
        <= 0xffff) by (bit_vector);
}

/// Reads one UTF-8 encoded character from `data[pos..end]`. The result is
/// the character and the number of bytes it takes, or `None` where the bytes
/// do not start with a well-formed character.
pub fn decode_scalar(data: &Vec<u8>, pos: usize, end: usize) -> (r: Option<(char, usize)>)
    requires
        pos <= end <= data@.len(),
    ensures
        match r {
            Some((ch, len)) => {
                &&& vstd::utf8::valid_first_scalar(data@.subrange(pos as int, end as int))
                &&& ch == vstd::utf8::decode_first_scalar(
                    data@.subrange(pos as int, end as int),
                ) as char
                &&& len == vstd::utf8::length_of_first_scalar(
                    data@.subrange(pos as int, end as int),
                )
                &&& 1 <= len <= 4
                &&& pos + len <= end
            },
            None => !vstd::utf8::valid_first_scalar(data@.subrange(pos as int, end as int)),
        },
{
    let ghost bytes = data@.subrange(pos as int, end as int);
    let avail = end - pos;
    if avail == 0 {
        return None;
    }
    let b0 = data[pos];
    assert(bytes[0] == b0);
    let len: usize = if b0 <= 0x7f {
        1
    } else if 0xc0 <= b0 && b0 <= 0xdf {
        2
    } else if 0xe0 <= b0 && b0 <= 0xef {
        3
    } else if 0xf0 <= b0 && b0 <= 0xf7 {
        4
    } else {
        return None;
    };
    if avail < len {
        return None;
    }
    let b1 = if len >= 2 {
        data[pos + 1]
    } else {
        0x80
    };
    let b2 = if len >= 3 {
        data[pos + 2]
    } else {
        0x80
    };
    let b3 = if len >= 4 {
        data[pos + 3]
    } else {
        0x80
    };
    proof {
        if len >= 2 {
            assert(bytes[1] == b1);
        }
        if len >= 3 {
            assert(bytes[2] == b2);
        }
        if len >= 4 {
            assert(bytes[3] == b3);
        }
        lemma_codepoint_bounds(b0, b1, b2, b3);
    }
    if !(0x80 <= b1 && b1 <= 0xbf && 0x80 <= b2 && b2 <= 0xbf && 0x80 <= b3 && b3 <= 0xbf) {
        return None;
    }
    let code: u32 = if len == 1 {
        (b0 & 0x7F) as u32
    } else if len == 2 {
        (((b0 & 0x1F) as u32) << 6) | ((b1 & 0x3f) as u32)
    } else if len == 3 {
        (((b0 & 0x0F) as u32) << 12) | (((b1 & 0x3f) as u32) << 6) | ((b2 & 0x3f) as u32)
    } else {
        (((b0 & 0x07) as u32) << 18) | (((b1 & 0x3f) as u32) << 12) | (((b2 & 0x3f) as u32) << 6)
            | ((b3 & 0x3f) as u32)
    };
    assert(code == vstd::utf8::decode_first_codepoint(bytes));
    let overlong = (len == 2 && code < 0x80) || (len == 3 && code < 0x800) || (len == 4 && (code
        < 0x10000 || code > 0x10ffff));
    if overlong || (0xD800 <= code && code <= 0xDFFF) {
        return None;
    }
    match char::from_u32(code) {
        Some(ch) => Some((ch, len)),
        None => None,
    }
}

/// Iterates over the pieces of a stored line.
#[derive(Debug)]
pub struct PieceIter<'a> {
    chunk: &'a Vec<u8>,
    offset: usize,
    end: usize,
    last_seen: bool,
}

impl<'a> PieceIter<'a> {
    pub closed spec fn wf(&self) -> bool {
        self.offset <= self.end <= self.chunk@.len()
    }

    /// The pieces that are still to come.
    pub closed spec fn remaining(&self) -> Seq<PieceModel> {
        if self.last_seen {
            Seq::empty()
        } else {
            spec_decode_line(self.chunk@.subrange(self.offset as int, self.end as int))
        }
    }

    fn new(line: &MemSBLine<'a>) -> (it: PieceIter<'a>)
        requires
            line.wf(),
        ensures
            it.wf(),
            it.remaining() == spec_decode_line(line@),
    {
        PieceIter { chunk: line.chunk, offset: line.offset, end: line.end, last_seen: false }
    }

    /// Reads the characters without width that stand at `start`, appends
    /// them to `text`, and says how many bytes they take.
    fn take_marks(&self, start: usize, text: &mut String) -> (used: usize)
        requires
            self.wf(),
            self.offset <= start <= self.end,
        ensures
            final(text)@ == old(text)@ + spec_marks(
                self.chunk@.subrange(start as int, self.end as int),
            ).0,
            used == spec_marks(self.chunk@.subrange(start as int, self.end as int)).1,
            start + used <= self.end,
    {
        let ghost bytes = self.chunk@.subrange(start as int, self.end as int);
        let mut used: usize = 0;
        let mut go = true;
        proof {
            assert(bytes.skip(0) =~= bytes);
        }
        while go
            invariant
                self.wf(),
                self.offset <= start <= self.end,
                start + used <= self.end,
                bytes == self.chunk@.subrange(start as int, self.end as int),
                old(text)@ + spec_marks(bytes).0 == text@ + spec_marks(bytes.skip(used as int)).0,
                spec_marks(bytes).1 == used + spec_marks(bytes.skip(used as int)).1,
                !go ==> spec_marks(bytes.skip(used as int)) == (Seq::<char>::empty(), 0int),
            decreases self.end - start - used + (if go { 1int } else { 0int }),
        {
            let ghost cur = bytes.skip(used as int);
            let ghost before = text@;
            proof {
                assert(cur =~= self.chunk@.subrange(start + used, self.end as int));
            }
            match decode_scalar(self.chunk, start + used, self.end) {
                Some((ch, len)) => {
                    match crate::width::char_width(ch) {
                        Some(width) => {
                            if width == 0 {
                                string_push(text, ch);
                                proof {
                                    assert(cur.skip(len as int) =~= bytes.skip(used + len));
                                    let more = spec_marks(cur.skip(len as int)).0;
                                    assert(before + (seq![ch] + more) =~= text@ + more);
                                }
                                used += len;
                            } else {
                                go = false;
                            }
                        },
                        None => {
                            go = false;
                        },
                    }
                },
                None => {
                    go = false;
                },
            }
        }
        proof {
            assert(text@ + Seq::<char>::empty() =~= text@);
        }
        used
    }

    /// Reads `count` cells from `start` on: their text, joined, and the
    /// number of bytes they take.
    fn take_cells(&self, start: usize, count: u8) -> (r: Option<(String, usize)>)
        requires
            self.wf(),
            self.offset <= start <= self.end,
        ensures
            match r {
                Some((text, used)) => match spec_take_cells(
                    self.chunk@.subrange(start as int, self.end as int),
                    count as nat,
                ) {
                    Some((cells, taken)) => {
                        &&& taken == used
                        &&& text@ == spec_flat(cells)
                        &&& cells.len() == count
                        &&& start + used <= self.end
                    },
                    None => false,
                },
                None => spec_take_cells(
                    self.chunk@.subrange(start as int, self.end as int),
                    count as nat,
                ) is None,
            },
    {
        let ghost bytes = self.chunk@.subrange(start as int, self.end as int);
        let ghost mut cells = Seq::<Seq<char>>::empty();
        let mut text = String::new();
        let mut used: usize = 0;
        let mut i: u8 = 0;
        while i < count
            invariant
                i <= count,
                self.wf(),
                self.offset <= start <= self.end,
                start + used <= self.end,
                bytes == self.chunk@.subrange(start as int, self.end as int),
                spec_take_cells(bytes, i as nat) == Some((cells, used as int)),
                text@ == spec_flat(cells),
                cells.len() == i,
            decreases count - i,
        {
            let ghost rest = bytes.skip(used as int);
            let ghost before = text@;
            proof {
                assert(rest =~= self.chunk@.subrange(start + used, self.end as int));
            }
            match decode_scalar(self.chunk, start + used, self.end) {
                Some((ch, len)) => {
                    string_push(&mut text, ch);
                    proof {
                        assert(rest.skip(len as int) =~= self.chunk@.subrange(
                            start + used + len,
                            self.end as int,
                        ));
                    }
                    let more = self.take_marks(start + used + len, &mut text);
                    proof {
                        let marks = spec_marks(rest.skip(len as int)).0;
                        let cell = seq![ch] + marks;
                        assert(cells.push(cell).drop_last() =~= cells);
                        assert(text@ =~= before + cell);
                        cells = cells.push(cell);
                    }
                    used = used + len + more;
                },
                None => {
                    proof {
                        lemma_take_cells_none(bytes, i as nat + 1, count as nat);
                    }
                    return None;
                },
            }
            i += 1;
        }
        Some((text, used))
    }

    /// Reads the header of the piece at `offset`: its style, its number of
    /// cells, whether it ends the line, and where its text starts.
    fn read_header(&self) -> (r: Option<(Style, u8, bool, usize)>)
        requires
            self.wf(),
        ensures
            match r {
                None => spec_data_start(
                    self.chunk@.subrange(self.offset as int, self.end as int),
                ) is None,
                Some((style, count, last, start)) => {
                    let bytes = self.chunk@.subrange(self.offset as int, self.end as int);
                    &&& spec_data_start(bytes) == Some(start - self.offset)
                    &&& self.offset + 2 <= start <= self.end
                    &&& count == bytes[1]
                    &&& last == ((SBRendition { bits: bytes[0] }).spec_is_last() || count == 0)
                    &&& style == spec_piece_style(
                        bytes[0],
                        spec_header_fg(bytes),
                        spec_header_bg(bytes),
                    )
                },
            },
    {
        let ghost bytes = self.chunk@.subrange(self.offset as int, self.end as int);
        let avail = self.end - self.offset;
        if avail < 2 {
            return None;
        }
        let rend = SBRendition { bits: self.chunk[self.offset] };
        let count = self.chunk[self.offset + 1];
        assert(bytes[0] == rend.bits && bytes[1] == count);
        let size = rend.header_size();
        if avail < size {
            return None;
        }
        let mut col_fg = VTColor::DefaultFg;
        let mut col_bg = VTColor::DefaultBg;
        let mut data_offset = self.offset + 2;
        if rend.has_fg() {
            proof {
                assert(bytes[2] == self.chunk@[data_offset as int]);
                assert(bytes[3] == self.chunk@[data_offset + 1]);
                assert(bytes[4] == self.chunk@[data_offset + 2]);
                assert(bytes[5] == self.chunk@[data_offset + 3]);
            }
            col_fg = VTColor::memsb_decode(self.chunk.as_slice(), data_offset);
            data_offset += 4;
        }
        if rend.has_bg() {
            proof {
                let at = data_offset - self.offset;
                assert(bytes[at] == self.chunk@[data_offset as int]);
                assert(bytes[at + 1] == self.chunk@[data_offset + 1]);
                assert(bytes[at + 2] == self.chunk@[data_offset + 2]);
                assert(bytes[at + 3] == self.chunk@[data_offset + 3]);
            }
            col_bg = VTColor::memsb_decode(self.chunk.as_slice(), data_offset);
            data_offset += 4;
        }
        let style = Style {
            col_fg,
            col_bg,
            rendition: VTRendition::from_bits((rend.bits & RENDITION_ALL) | RENDITION_DIRTY),
        };
        Some((style, count, rend.is_last() || count == 0, data_offset))
    }

    /// The next piece of the line, if there is one.
    pub fn next(&mut self) -> (r: Option<Piece>)
        requires
            old(self).wf(),
        ensures
            final(self).wf(),
            match r {
                Some(piece) => {
                    &&& old(self).remaining().len() > 0
                    &&& piece@ == old(self).remaining()[0]
                    &&& final(self).remaining() == old(self).remaining().drop_first()
                },
                None => old(self).remaining().len() == 0 && final(self).remaining().len() == 0,
            },
    {
        if self.last_seen {
            return None;
        }
        let ghost bytes = self.chunk@.subrange(self.offset as int, self.end as int);
        match self.read_header() {
            None => {
                self.last_seen = true;
                None
            },
            Some((style, count, last, start)) => {
                proof {
                    assert(bytes.skip(start - self.offset) =~= self.chunk@.subrange(
                        start as int,
                        self.end as int,
                    ));
                }
                match self.take_cells(start, count) {
                    None => {
                        self.last_seen = true;
                        None
                    },
                    Some((string, used)) => {
                        let ghost taken = start + used - self.offset;
                        let ghost rest = spec_decode_line(bytes.skip(taken));
                        proof {
                            assert(bytes.skip(taken) =~= self.chunk@.subrange(
                                start + used,
                                self.end as int,
                            ));
                        }
                        // Advance state
                        self.offset = start + used;
                        self.last_seen = last;
                        let piece = Piece { string, style };
                        if count == 0 {
                            None
                        } else {
                            proof {
                                if last {
                                    assert(seq![piece@].drop_first() =~= Seq::<PieceModel>::empty());
                                } else {
                                    assert((seq![piece@] + rest).drop_first() =~= rest);
                                }
                            }
                            Some(piece)
                        }
                    },
                }
            },
        }
    }
}

/// Once the cells run out, asking for more does not help.
pub proof fn lemma_take_cells_none(bytes: Seq<u8>, failed: nat, count: nat)
    requires
        spec_take_cells(bytes, failed) is None,
        failed <= count,
    ensures
        spec_take_cells(bytes, count) is None,
    decreases count,
{
    if failed < count {
        lemma_take_cells_none(bytes, failed, (count - 1) as nat);
    }
}

impl<'a> View for MemSBLine<'a> {
    type V = Seq<u8>;

    /// The bytes of the stored line.
    closed spec fn view(&self) -> Seq<u8> {
        self.chunk@.subrange(self.offset as int, self.end as int)
    }
}

impl<'a> MemSBLine<'a> {
    pub closed spec fn wf(&self) -> bool {
        self.offset <= self.end <= self.chunk@.len()
    }

    /// The line that `chunk[offset..end]` holds.
    pub(crate) fn at(chunk: &'a Vec<u8>, offset: usize, end: usize) -> (l: MemSBLine<'a>)
        requires
            offset <= end <= chunk@.len(),
        ensures
            l.wf(),
            l@ == chunk@.subrange(offset as int, end as int),
            l.spec_offset() == offset,
    {
        MemSBLine { chunk, offset, end }
    }

    pub closed spec fn spec_offset(&self) -> usize {
        self.offset
    }

    /// Where in its chunk the line starts.
    pub fn offset(&self) -> (r: usize)
        ensures
            r == self.spec_offset(),
    {
        self.offset
    }

    /// A piece iterator over this line. A piece is a part of the line with
    /// one `Style`.
    pub fn iter(&self) -> (it: PieceIter<'a>)
        requires
            self.wf(),
        ensures
            it.wf(),
            it.remaining() == spec_decode_line(self@),
    {
        PieceIter::new(self)
    }

    /// All pieces of this line, in order.
    pub fn pieces(&self) -> (r: Vec<Piece>)
        requires
            self.wf(),
        ensures
            r@.len() == spec_decode_line(self@).len(),
            forall|k: int| 0 <= k < r@.len() ==> (#[trigger] r@[k])@ == spec_decode_line(self@)[k],
    {
        let mut it = self.iter();
        let mut res: Vec<Piece> = Vec::new();
        let ghost all = spec_decode_line(self@);
        let mut go = true;
        while go
            invariant
                it.wf(),
                res@.len() + it.remaining().len() == all.len(),
                forall|k: int| 0 <= k < res@.len() ==> (#[trigger] res@[k])@ == all[k],
                forall|k: int|
                    0 <= k < it.remaining().len() ==> #[trigger] it.remaining()[k] == all[res@.len()
                        + k],
                !go ==> it.remaining().len() == 0,
            decreases it.remaining().len() + (if go { 1int } else { 0int }),
        {
            let ghost before = it.remaining();
            match it.next() {
                Some(piece) => {
                    proof {
                        assert forall|k: int| 0 <= k < it.remaining().len() implies
                            #[trigger] it.remaining()[k] == all[res@.len() + 1 + k] by {
                            assert(it.remaining()[k] == before[k + 1]);
                        }
                    }
                    res.push(piece);
                },
                None => {
                    go = false;
                },
            }
        }
        res
    }
}

} // verus!
