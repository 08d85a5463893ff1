use tp_term::cell::{Cell, Style};
use tp_term::line::Line;
use tp_term::sbcodec::{MemSBLine, Piece};
use tp_term::scrollback::{MemScrollback, CHUNK_OVERHEAD, CHUNK_SIZE, LINE_OVERHEAD};
use tp_term::vt::{VTColor, VTRendition};

const MEM_CAP: usize = 1 * 1024 * 1024;
const VTCOLOR_RED: u8 = 1;
const VTCOLOR_BLUE: u8 = 4;

fn piece(string: &str, style: Style) -> Piece {
    Piece { string: string.to_string(), style }
}

fn test_line() -> (Line, Vec<Piece>) {
    let style_blue = Style::with_fg(VTColor::Indexed(VTCOLOR_BLUE));
    let style_red = Style::with_fg(VTColor::Indexed(VTCOLOR_RED));
    let mut line = Line::new();

    line.push(Cell::new('a', Style::default()));
    line.push(Cell::new('b', style_blue));
    line.push(Cell::new('c', style_red));

    let mut pieces = Vec::new();
    pieces.push(piece("a", Style::default()));
    pieces.push(piece("b", style_blue));
    pieces.push(piece("c", style_red));

    (line, pieces)
}

fn wide_line() -> (Line, Vec<Piece>) {
    let (mut test_line, _test_pieces) = test_line();
    let mut line = Line::with_size(Cell::new('a', Style::default()), 150);
    let mut line2 = line.clone();

    line.append(&mut test_line);
    line.append(&mut line2);

    let string = "a".repeat(200);
    let mut pieces = Vec::new();
    pieces.push(piece(&string, Style::default()));

    (line, pieces)
}

fn stored_pieces(scrollback: &MemScrollback, index: usize) -> Vec<Piece> {
    scrollback.iter()[index].pieces()
}

#[test]
fn memscrollback_basic() {
    let (mut line, pieces) = test_line();

    let mut scrollback = MemScrollback::new(MEM_CAP);
    for _ in 0..5 {
        line.push(Cell::default()); // Ensure trimming works
    }
    scrollback.push(line.clone());

    let lines = scrollback.iter();
    let line_iter = &lines[0];
    assert_eq!(line_iter.pieces().iter().count(), pieces.iter().count());
    for (p1, p2) in line_iter.pieces().iter().zip(pieces.iter()) {
        assert_eq!(p1, p2);
    }
}

#[test]
fn memscrollback_line_size() {
    let lines = vec![test_line().0, wide_line().0];

    for line in lines {
        let size = MemSBLine::line_size(&line);
        let mut scrollback = MemScrollback::new(MEM_CAP);
        scrollback.push(line.clone());
        scrollback.push(line.clone());
        let stored = scrollback.iter();
        assert_eq!(stored[0].offset(), 0);
        assert_eq!(size, stored[1].offset());
    }
}

#[test]
fn memscrollback_mem_cap() {
    let tests = vec![
        (2 * CHUNK_SIZE, CHUNK_SIZE, test_line().0),
        (256 * 1024, 2000, wide_line().0),
    ];

    for (cap, num_lines, line) in tests.iter() {
        let mut scrollback = MemScrollback::new(*cap);
        for _ in 0..*num_lines {
            scrollback.push(line.clone());
            let mem_size = scrollback.mem_size();
            assert!(mem_size <= *cap, "mem_size: {}, cap: {}", mem_size, *cap);
        }
    }
}

#[test]
fn memscrollback_iter_at() {
    let (line, _pieces) = test_line();

    let mut scrollback = MemScrollback::new(MEM_CAP);
    let num_lines = 10;
    for _ in 0..num_lines {
        scrollback.push(line.clone());
    }

    let at = 3;
    let line_iter = scrollback.iter_at(3);
    assert_eq!(line_iter.iter().count(), num_lines - at);
    assert_eq!(scrollback.iter_at(10).len(), 0);
    assert_eq!(scrollback.iter_at(11).len(), 0);
}

#[test]
fn scrollback_small_cap_with_long_lines() {
    // A cap of 64 KiB and 2000 lines of 160 columns
    let cap = 64 * 1024;
    let line = Line::with_size(Cell::new('a', Style::default()), 160);
    let mut scrollback = MemScrollback::new(cap);
    for _ in 0..2000 {
        scrollback.push(line.clone());
        assert!(scrollback.mem_size() <= cap);
        assert_eq!(scrollback.iter().len(), scrollback.len());
    }
    assert!(scrollback.len() > 0);
    let pieces = stored_pieces(&scrollback, 0);
    assert_eq!(pieces, vec![piece(&"a".repeat(160), Style::default())]);
}

#[test]
fn scrollback_accounting() {
    let (line, _) = test_line();
    let mut scrollback = MemScrollback::new(MEM_CAP);
    assert_eq!(scrollback.mem_size(), 0);
    assert_eq!(scrollback.len(), 0);
    scrollback.push(line.clone());
    assert_eq!(scrollback.mem_size(), CHUNK_SIZE + CHUNK_OVERHEAD + LINE_OVERHEAD);
    scrollback.push(line.clone());
    assert_eq!(scrollback.mem_size(), CHUNK_SIZE + CHUNK_OVERHEAD + 2 * LINE_OVERHEAD);
    assert_eq!(scrollback.len(), 2);
}

#[test]
fn scrollback_cap_too_small_for_a_chunk_keeps_nothing() {
    let (line, _) = test_line();
    let mut scrollback = MemScrollback::new(1024);
    scrollback.push(line.clone());
    assert_eq!(scrollback.len(), 0);
    assert_eq!(scrollback.mem_size(), 0);
    assert_eq!(scrollback.iter().len(), 0);
}

#[test]
fn scrollback_set_mem_cap_evicts_oldest_chunk() {
    let line = Line::with_size(Cell::new('x', Style::default()), 200);
    let mut scrollback = MemScrollback::new(MEM_CAP);
    // 202 bytes a line: 162 lines fill a chunk
    for _ in 0..200 {
        scrollback.push(line.clone());
    }
    assert_eq!(scrollback.len(), 200);
    scrollback.set_mem_cap(CHUNK_SIZE + CHUNK_OVERHEAD + 40 * LINE_OVERHEAD);
    assert_eq!(scrollback.len(), 38);
    scrollback.set_mem_cap(0);
    assert_eq!(scrollback.len(), 0);
}

#[test]
fn scrollback_line_encoding_is_exact() {
    let (line, _) = test_line();
    let mut bytes = Vec::new();
    MemSBLine::encode_line(&line, &mut bytes);
    assert_eq!(bytes, vec![
        0x00, 1, b'a',
        0x20, 1, 2, VTCOLOR_BLUE, 0, 0, b'b',
        0xa0, 1, 2, VTCOLOR_RED, 0, 0, b'c',
    ]);
    assert_eq!(MemSBLine::line_size(&line), 17);
}

#[test]
fn scrollback_empty_line_is_a_single_terminator() {
    let line = Line::with_size(Cell::default(), 80);
    assert_eq!(MemSBLine::trim_count(&line), 80);
    let mut bytes = Vec::new();
    MemSBLine::encode_line(&line, &mut bytes);
    assert_eq!(bytes, vec![0x80, 0]);
    let mut scrollback = MemScrollback::new(MEM_CAP);
    scrollback.push(line);
    scrollback.push(Line::new());
    assert_eq!(scrollback.len(), 2);
    assert_eq!(stored_pieces(&scrollback, 0), vec![]);
    assert_eq!(stored_pieces(&scrollback, 1), vec![]);
}

#[test]
fn scrollback_trimming_ignores_the_dirty_hint() {
    let mut blank = Cell::default();
    blank.set_dirty(false);
    let mut line = Line::new();
    line.push(Cell::new('x', Style::default()));
    line.push(blank);
    line.push(Cell::default());
    assert_eq!(MemSBLine::trim_count(&line), 2);
    // A space in another style is no empty cell
    line.push(Cell::with_style(Style::with_bg(VTColor::Indexed(3))));
    assert_eq!(MemSBLine::trim_count(&line), 0);
}

#[test]
fn scrollback_pieces_hold_at_most_255_cells() {
    let line = Line::with_size(Cell::new('z', Style::default()), 600);
    let mut scrollback = MemScrollback::new(MEM_CAP);
    scrollback.push(line.clone());
    let pieces = stored_pieces(&scrollback, 0);
    assert_eq!(pieces.len(), 3);
    assert_eq!(pieces[0].string.len(), 255);
    assert_eq!(pieces[1].string.len(), 255);
    assert_eq!(pieces[2].string.len(), 90);
    assert_eq!(MemSBLine::line_size(&line), 606);
}

#[test]
fn scrollback_roundtrip_of_styles_and_wide_text() {
    let mut fancy = Style::with_fg(VTColor::Rgb(1, 2, 3));
    fancy.col_bg = VTColor::Indexed(200);
    fancy.rendition = VTRendition::from_bits(0x01 | 0x08 | 0x20);
    let mut line = Line::new();
    line.push(Cell::new('\u{4e2d}', fancy));
    line.push(Cell::new('\u{e9}', fancy));
    line.push(Cell::new('\u{1f600}', Style::with_bg(VTColor::DefaultFg)));
    line.push(Cell::default());
    let mut scrollback = MemScrollback::new(MEM_CAP);
    scrollback.push(line);
    let pieces = stored_pieces(&scrollback, 0);
    // The wide hint is not stored, and what comes back is dirty
    let mut stored = fancy;
    stored.rendition = VTRendition::from_bits(0x01 | 0x08 | 0x40);
    assert_eq!(pieces, vec![
        piece("\u{4e2d}\u{e9}", stored),
        piece("\u{1f600}", Style::with_bg(VTColor::DefaultFg)),
    ]);
}

#[test]
fn scrollback_piece_iterator_steps() {
    let (line, pieces) = test_line();
    let mut scrollback = MemScrollback::new(MEM_CAP);
    scrollback.push(line);
    let lines = scrollback.iter();
    let mut iter = lines[0].iter();
    assert_eq!(iter.next(), Some(piece("a", pieces[0].style)));
    assert_eq!(iter.next(), Some(piece("b", pieces[1].style)));
    assert_eq!(iter.next(), Some(piece("c", pieces[2].style)));
    assert_eq!(iter.next(), None);
    assert_eq!(iter.next(), None);
}

#[test]
fn scrollback_cells_with_combining_marks_come_back() {
    let mut marked = Cell::new('e', Style::default());
    marked.push('\u{301}');
    marked.push('\u{323}');
    let mut line = Line::new();
    line.push(marked);
    line.push(Cell::new('x', Style::default()));
    let mut last = Cell::new('o', Style::with_fg(VTColor::Indexed(2)));
    last.push('\u{308}');
    line.push(last);
    line.push(Cell::default());
    let mut scrollback = MemScrollback::new(MEM_CAP);
    scrollback.push(line.clone());
    let pieces = stored_pieces(&scrollback, 0);
    assert_eq!(pieces, vec![
        piece("e\u{301}\u{323}x", Style::default()),
        piece("o\u{308}", Style::with_fg(VTColor::Indexed(2))),
    ]);
    // The length bytes count cells, not characters
    let mut bytes = Vec::new();
    MemSBLine::encode_line(&line, &mut bytes);
    assert_eq!(bytes[1], 2);
    assert_eq!(bytes[2 + "e\u{301}\u{323}x".len() + 1], 1);
}

#[test]
fn scrollback_round_trip_joins_to_the_trimmed_line() {
    let styles = [
        Style::default(),
        Style::with_fg(VTColor::Indexed(4)),
        Style::with_bg(VTColor::Rgb(9, 8, 7)),
    ];
    let texts = ["a", "\u{e9}", "\u{4e2d}", "u\u{308}", "\u{1f600}", "n\u{303}\u{301}", " "];
    let mut line = Line::new();
    let mut expect = String::new();
    for i in 0..300 {
        let text = texts[(i * 7 + i / 5) % texts.len()];
        let mut chars = text.chars();
        let mut cell = Cell::new(chars.next().unwrap(), styles[(i / 3) % styles.len()]);
        for mark in chars {
            cell.push(mark);
        }
        expect.push_str(&cell.as_str());
        line.push(cell);
    }
    line.push(Cell::new('!', Style::default()));
    expect.push('!');
    for _ in 0..20 {
        line.push(Cell::default());
    }
    let mut scrollback = MemScrollback::new(MEM_CAP);
    scrollback.push(line);
    let joined: String = stored_pieces(&scrollback, 0).iter().map(|p| p.string.clone()).collect();
    assert_eq!(joined, expect);
}

#[test]
fn scrollback_last_piece_with_background_holds_at_most_127_cells() {
    // A header of the last piece that starts with 0xCC 0x81 would read as
    // U+0301 and join the cell before it: such a piece is cut at 127 cells.
    let mut style = Style::with_bg(VTColor::Indexed(3));
    style.rendition = VTRendition::from_bits(0x04 | 0x08 | 0x40);
    let mut line = Line::new();
    let mut first = Cell::new('e', Style::default());
    first.push('\u{301}');
    line.push(first);
    let mut tail = Line::with_size(Cell::with_style(style), 129);
    for cell in tail.cells.iter_mut() {
        cell.set_dirty(true);
    }
    line.append(&mut tail);
    let mut scrollback = MemScrollback::new(MEM_CAP);
    scrollback.push(line);
    let pieces = stored_pieces(&scrollback, 0);
    assert_eq!(pieces.len(), 3);
    assert_eq!(pieces[0].string, "e\u{301}");
    assert_eq!(pieces[1].string.len(), 127);
    assert_eq!(pieces[2].string.len(), 2);
    assert_eq!(pieces[1].style, style);
    assert_eq!(pieces[2].style, style);
}

#[test]
fn scrollback_pieces_are_cut_at_every_style_boundary() {
    // Two cells that differ in a rendering hint alone do not share a piece
    let mut clean = Cell::new('a', Style::default());
    clean.set_dirty(false);
    let mut line = Line::new();
    line.push(Cell::new('a', Style::default()));
    line.push(clean);
    line.push(Cell::new('a', Style::default()));
    let mut bytes = Vec::new();
    MemSBLine::encode_line(&line, &mut bytes);
    assert_eq!(bytes, vec![0x00, 1, b'a', 0x00, 1, b'a', 0x80, 1, b'a']);
    let mut wide = Style::default();
    wide.rendition = VTRendition::from_bits(0x20 | 0x40);
    let mut line = Line::new();
    line.push(Cell::new('\u{4e2d}', wide));
    line.push(Cell::new(' ', Style::default()));
    line.push(Cell::new('b', Style::default()));
    let mut scrollback = MemScrollback::new(MEM_CAP);
    scrollback.push(line);
    let pieces = stored_pieces(&scrollback, 0);
    assert_eq!(pieces, vec![piece("\u{4e2d}", Style::default()), piece(" b", Style::default())]);
}

#[test]
fn scrollback_lines_come_back_oldest_first() {
    let mut scrollback = MemScrollback::new(MEM_CAP);
    for ch in ['a', 'b', 'c'] {
        scrollback.push(Line::with_size(Cell::new(ch, Style::default()), 3));
    }
    let texts: Vec<String> = scrollback
        .iter()
        .iter()
        .map(|line| line.pieces().iter().map(|p| p.string.clone()).collect::<String>())
        .collect();
    assert_eq!(texts, vec!["aaa", "bbb", "ccc"]);
}
