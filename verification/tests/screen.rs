use tp_term::cell::{Cell, Style};
use tp_term::scrollback::MemScrollback;
use tp_term::screen::Screen;
use tp_term::vt::{VTCharset, VTColor, VTErase, VTMode, VTRendition};

fn row(screen: &Screen, y: usize) -> String {
    screen.line_iter()[y].cells.iter().map(|c| c.as_str()).collect()
}

fn cell(screen: &Screen, x: usize, y: usize) -> Cell {
    screen.line_iter()[y].cells[x].clone()
}

fn put_str(screen: &mut Screen, text: &str) {
    for ch in text.chars() {
        screen.put_char(ch);
    }
}

fn stored(screen: &Screen) -> Vec<String> {
    match screen.scrollback() {
        Some(sb) => sb
            .iter()
            .iter()
            .map(|line| line.pieces().iter().map(|p| p.string.clone()).collect::<String>())
            .collect(),
        None => vec![],
    }
}

/// A 10 by 5 screen whose line `y` starts with the digit `y`.
fn numbered() -> Screen {
    let mut screen = Screen::new().with_scrollback(MemScrollback::new(1024 * 1024));
    for y in 0..5u32 {
        screen.cursor_set(Some(1), Some(y + 1));
        screen.put_char(char::from_digit(y, 10).unwrap());
    }
    screen.cursor_set(Some(1), Some(1));
    screen
}

fn firsts(screen: &Screen) -> String {
    (0..screen.size().1 as usize).map(|y| cell(screen, 0, y).as_str()).collect()
}

fn check_invariants(screen: &Screen) {
    let (cols, rows) = screen.size();
    assert!(cols >= 10 && rows >= 5);
    assert_eq!(screen.line_iter().len(), rows as usize);
    for line in screen.line_iter() {
        assert_eq!(line.len(), cols as usize);
    }
    let (x, y) = screen.cursor();
    assert!(1 <= x && x <= cols);
    assert!(1 <= y && y <= rows);
    let (top, bottom) = screen.scroll_region();
    assert!(top < bottom && bottom <= rows - 1);
}

#[test]
fn screen_scroll() {
    let mut screen = Screen::with_size((1, 10));
    // Sizes under the minimum are raised to it
    assert_eq!(screen.size(), (10, 10));
    put_str(&mut screen, "top");
    screen.scroll(1);
    assert_eq!(row(&screen, 0), "          ");
    assert_eq!(screen.reset_scrolled_lines(), 1);
    assert_eq!(screen.reset_scrolled_lines(), 0);
    check_invariants(&screen);
}

#[test]
fn screen_new_is_blank() {
    let screen = Screen::new();
    assert_eq!(screen.size(), (10, 5));
    assert_eq!(screen.cursor(), (1, 1));
    assert_eq!(screen.scroll_region(), (0, 4));
    assert_eq!(screen.mode(), VTMode::wrap());
    for y in 0..5 {
        assert_eq!(row(&screen, y), "          ");
    }
    assert!(!screen.tab_at(0));
    assert!(screen.tab_at(8));
    assert!(!screen.tab_at(9));
    assert!(screen.scrollback().is_none());
    assert_eq!(Screen::default().size(), (80, 40));
    assert_eq!(Screen::with_size((100000, 3)).size(), (65535, 5));
}

#[test]
fn screen_put_char_advances() {
    let mut screen = Screen::new();
    put_str(&mut screen, "Hi");
    assert_eq!(row(&screen, 0), "Hi        ");
    assert_eq!(screen.cursor(), (3, 1));
    assert!(cell(&screen, 0, 0).rendition().contains(VTRendition::dirty()));
}

#[test]
fn screen_sgr_reset_gives_default_style() {
    let mut screen = Screen::new();
    screen.set_rendition(VTRendition::bold(), true);
    screen.set_rendition(VTRendition::inverse(), true);
    screen.put_char('a');
    assert!(cell(&screen, 0, 0).rendition().contains(VTRendition::bold()));
    assert!(!cell(&screen, 0, 0).style.is_default());
    screen.set_rendition(VTRendition::all(), false);
    screen.put_char('b');
    assert_eq!(cell(&screen, 1, 0).style, Style::default());
    assert_eq!(cell(&screen, 1, 0).as_str(), "b");
}

#[test]
fn screen_colors_stick_to_cells() {
    let mut screen = Screen::new();
    screen.set_fg(VTColor::Indexed(4));
    screen.set_bg(VTColor::Rgb(1, 2, 3));
    screen.put_char('x');
    assert_eq!(cell(&screen, 0, 0).col_fg(), VTColor::Indexed(4));
    assert_eq!(cell(&screen, 0, 0).col_bg(), VTColor::Rgb(1, 2, 3));
    // Blank cells take the cursor's style
    screen.erase(VTErase::LineRight);
    assert_eq!(cell(&screen, 5, 0).col_bg(), VTColor::Rgb(1, 2, 3));
    assert_eq!(cell(&screen, 0, 0).as_str(), "x");
}

#[test]
fn screen_cursor_save_and_load() {
    let mut screen = Screen::new();
    screen.set_mode(VTMode::origin(), true);
    screen.cursor_set(Some(4), Some(3));
    screen.set_fg(VTColor::Indexed(2));
    screen.cursor_save();
    screen.set_mode(VTMode::origin(), false);
    screen.set_fg(VTColor::Indexed(5));
    screen.cursor_move(3, 1);
    screen.cursor_set(Some(1), Some(1));
    screen.tab(1);
    screen.newline();
    screen.cursor_load();
    assert_eq!(screen.cursor(), (4, 3));
    assert!(screen.mode().contains(VTMode::origin()));
    screen.put_char('x');
    assert_eq!(cell(&screen, 3, 2).col_fg(), VTColor::Indexed(2));
}

#[test]
fn screen_scroll_region_set_and_reset() {
    let mut screen = Screen::new();
    screen.cursor_set(Some(5), Some(4));
    screen.set_scroll_region(2, 4);
    assert_eq!(screen.scroll_region(), (1, 3));
    assert_eq!(screen.cursor(), (1, 1));
    screen.set_scroll_region(0, 0);
    assert_eq!(screen.scroll_region(), (0, 4));
    // Arguments that make no region give the whole screen
    screen.set_scroll_region(2, 4);
    screen.set_scroll_region(3, 3);
    assert_eq!(screen.scroll_region(), (0, 4));
    screen.set_scroll_region(4, 2);
    assert_eq!(screen.scroll_region(), (0, 4));
    screen.set_scroll_region(1, 6);
    assert_eq!(screen.scroll_region(), (0, 4));
    screen.set_scroll_region(5, 0);
    assert_eq!(screen.scroll_region(), (0, 4));
    screen.set_scroll_region(0, 2);
    assert_eq!(screen.scroll_region(), (0, 1));
    check_invariants(&screen);
}

#[test]
fn screen_wrap_off_overwrites_last_cell() {
    let mut screen = Screen::new();
    screen.set_mode(VTMode::wrap(), false);
    put_str(&mut screen, "0123456789abc");
    assert_eq!(row(&screen, 0), "012345678c");
    assert_eq!(row(&screen, 1), "          ");
    assert_eq!(screen.cursor(), (10, 1));
}

#[test]
fn screen_wrap_on_wraps_at_last_column() {
    let mut screen = Screen::new();
    put_str(&mut screen, "0123456789");
    // The cursor stays on the last column, the wrap is pending
    assert_eq!(row(&screen, 0), "0123456789");
    assert_eq!(screen.cursor(), (10, 1));
    screen.put_char('a');
    assert_eq!(row(&screen, 0), "0123456789");
    assert_eq!(row(&screen, 1), "a         ");
    assert_eq!(screen.cursor(), (2, 2));
}

#[test]
fn screen_wrap_outside_scroll_region_does_not_wrap() {
    let mut screen = Screen::new();
    screen.set_scroll_region(2, 4);
    put_str(&mut screen, "0123456789ab");
    assert_eq!(row(&screen, 0), "012345678b");
    assert_eq!(row(&screen, 1), "          ");
}

#[test]
fn screen_wrap_at_bottom_scrolls() {
    let mut screen = Screen::new().with_scrollback(MemScrollback::new(1024 * 1024));
    screen.cursor_set(Some(1), Some(5));
    put_str(&mut screen, "0123456789a");
    assert_eq!(row(&screen, 3), "0123456789");
    assert_eq!(row(&screen, 4), "a         ");
    assert_eq!(screen.cursor(), (2, 5));
    assert_eq!(stored(&screen), vec![""]);
}

#[test]
fn screen_wide_char_at_final_column_wraps() {
    let mut screen = Screen::new();
    put_str(&mut screen, "012345678");
    assert_eq!(screen.cursor(), (10, 1));
    screen.put_char('\u{4e2d}');
    assert_eq!(row(&screen, 0), "012345678 ");
    assert_eq!(cell(&screen, 0, 1).as_str(), "\u{4e2d}");
    assert!(cell(&screen, 0, 1).rendition().contains(VTRendition::wide()));
    assert_eq!(cell(&screen, 1, 1).as_str(), " ");
    assert_eq!(screen.cursor(), (3, 2));
}

#[test]
fn screen_wide_char_without_wrap_steps_back() {
    let mut screen = Screen::new();
    screen.set_mode(VTMode::wrap(), false);
    put_str(&mut screen, "012345678");
    screen.put_char('\u{4e2d}');
    assert_eq!(row(&screen, 0), "01234567\u{4e2d} ");
    assert_eq!(screen.cursor(), (10, 1));
}

#[test]
fn screen_overwriting_right_half_blanks_left_half() {
    let mut screen = Screen::new();
    screen.put_char('\u{4e2d}');
    screen.cursor_set(Some(2), None);
    screen.put_char('x');
    assert_eq!(row(&screen, 0), " x        ");
    assert!(!cell(&screen, 0, 0).rendition().contains(VTRendition::wide()));
}

#[test]
fn screen_combining_mark_joins_cell() {
    let mut screen = Screen::new();
    screen.put_char('e');
    screen.cursor_set(Some(1), None);
    screen.put_char('\u{301}');
    assert_eq!(cell(&screen, 0, 0).as_str(), "e\u{301}");
    assert_eq!(screen.cursor(), (1, 1));
}

#[test]
fn screen_control_characters_are_ignored() {
    let mut screen = Screen::new();
    screen.put_char('\u{85}');
    screen.put_char('\u{0}');
    assert_eq!(row(&screen, 0), "          ");
    assert_eq!(screen.cursor(), (1, 1));
}

#[test]
fn screen_put_glyph_takes_the_width_it_is_given() {
    let mut screen = Screen::new();
    screen.put_glyph('a', Some(2));
    assert_eq!(screen.cursor(), (3, 1));
    assert!(cell(&screen, 0, 0).rendition().contains(VTRendition::wide()));
    screen.put_glyph('b', Some(3));
    screen.put_glyph('c', None);
    assert_eq!(screen.cursor(), (3, 1));
    screen.put_glyph('d', Some(0));
    assert_eq!(cell(&screen, 2, 0).as_str(), " d");
    screen.put_glyph('e', Some(1));
    assert_eq!(cell(&screen, 2, 0).as_str(), "e");
}

#[test]
fn screen_insert_mode_blanks_cells_to_the_right() {
    let mut screen = Screen::new();
    put_str(&mut screen, "abcdef");
    screen.cursor_set(Some(2), None);
    screen.set_mode(VTMode::insert_mode(), true);
    screen.put_char('X');
    assert_eq!(row(&screen, 0), "aX        ");
}

#[test]
fn screen_insert_mode_does_not_shift() {
    let mut screen = Screen::new();
    put_str(&mut screen, "abcdef");
    screen.cursor_set(Some(2), None);
    screen.set_mode(VTMode::insert_mode(), true);
    screen.put_char('X');
    assert_ne!(row(&screen, 0), "aXbcdef   ");
}

#[test]
fn screen_graphics_charset() {
    let mut screen = Screen::new();
    screen.charset_designate(1, VTCharset::Graphics);
    screen.put_char('q');
    screen.charset_use(1);
    put_str(&mut screen, "q_~a");
    screen.charset_use(0);
    screen.put_char('q');
    screen.charset_use(7);
    screen.put_char('x');
    assert_eq!(row(&screen, 0), "q\u{2014} \u{b7}\u{2592}qx   ");
}

#[test]
fn screen_put_chars_blanks_without_moving() {
    let mut screen = Screen::new();
    put_str(&mut screen, "abcdef");
    screen.cursor_set(Some(2), None);
    screen.put_chars(3);
    assert_eq!(row(&screen, 0), "a   ef    ");
    assert_eq!(screen.cursor(), (2, 1));
    screen.put_chars(4000000000);
    assert_eq!(row(&screen, 0), "a         ");
}

#[test]
fn screen_erase_in_line() {
    let mut screen = Screen::new();
    put_str(&mut screen, "0123456789");
    screen.cursor_set(Some(4), None);
    screen.erase(VTErase::NumChars(2));
    assert_eq!(row(&screen, 0), "012  56789");
    screen.erase(VTErase::LineLeft);
    assert_eq!(row(&screen, 0), "     56789");
    screen.cursor_set(Some(8), None);
    screen.erase(VTErase::LineRight);
    assert_eq!(row(&screen, 0), "     56   ");
    screen.erase(VTErase::Line);
    assert_eq!(row(&screen, 0), "          ");
    assert_eq!(screen.cursor(), (8, 1));
}

#[test]
fn screen_erase_above_and_below() {
    let mut screen = Screen::new();
    for y in 0..5 {
        screen.cursor_set(Some(1), Some(y + 1));
        put_str(&mut screen, "0123456789");
    }
    screen.cursor_set(Some(4), Some(3));
    screen.erase(VTErase::Above);
    assert_eq!(row(&screen, 0), "          ");
    assert_eq!(row(&screen, 1), "          ");
    assert_eq!(row(&screen, 2), "    456789");
    assert_eq!(row(&screen, 3), "0123456789");
    screen.erase(VTErase::Below);
    assert_eq!(row(&screen, 2), "          ");
    assert_eq!(row(&screen, 3), "          ");
    assert_eq!(row(&screen, 4), "          ");
    assert_eq!(screen.cursor(), (4, 3));
}

#[test]
fn screen_erase_all_sends_lines_to_scrollback() {
    let mut screen = numbered();
    screen.cursor_set(Some(3), Some(2));
    screen.erase(VTErase::All);
    assert_eq!(firsts(&screen), "     ");
    assert_eq!(stored(&screen), vec!["0", "1", "2", "3", "4"]);
    assert_eq!(screen.cursor(), (3, 2));
    // Without scrollback the lines are just gone
    let mut plain = Screen::new();
    plain.put_char('x');
    plain.erase(VTErase::All);
    assert_eq!(row(&plain, 0), "          ");
}

#[test]
fn screen_tabs() {
    let mut screen = Screen::with_size((40, 5));
    screen.tab(1);
    assert_eq!(screen.cursor(), (9, 1));
    screen.tab(2);
    assert_eq!(screen.cursor(), (25, 1));
    // Not that many stops left: the cursor stays
    screen.tab(2);
    assert_eq!(screen.cursor(), (25, 1));
    screen.tab(-1);
    assert_eq!(screen.cursor(), (17, 1));
    screen.tab(-3);
    assert_eq!(screen.cursor(), (17, 1));
    screen.tab(0);
    assert_eq!(screen.cursor(), (17, 1));
    screen.cursor_set(Some(4), None);
    screen.tab_set(true);
    screen.cursor_set(Some(1), None);
    screen.tab(1);
    assert_eq!(screen.cursor(), (4, 1));
    screen.tab_set(false);
    screen.cursor_set(Some(1), None);
    screen.tab(1);
    assert_eq!(screen.cursor(), (9, 1));
    screen.tabs_clear();
    screen.cursor_set(Some(1), None);
    screen.tab(1);
    assert_eq!(screen.cursor(), (1, 1));
    assert!(!screen.tab_at(8));
}

#[test]
fn screen_scroll_whole_screen() {
    let mut screen = numbered();
    screen.scroll(2);
    assert_eq!(firsts(&screen), "234  ");
    assert_eq!(stored(&screen), vec!["0", "1"]);
    assert_eq!(screen.reset_scrolled_lines(), 2);
    screen.scroll(-1);
    assert_eq!(firsts(&screen), " 234 ");
    // Zero counts as one, and no more than the screen is scrolled
    screen.scroll(0);
    assert_eq!(firsts(&screen), "234  ");
    screen.scroll(100);
    assert_eq!(firsts(&screen), "     ");
    assert_eq!(stored(&screen), vec!["0", "1", "", "2", "3", "4", "", ""]);
    check_invariants(&screen);
}

#[test]
fn screen_scroll_region_only() {
    let mut screen = numbered();
    screen.set_scroll_region(2, 4);
    screen.scroll(1);
    assert_eq!(firsts(&screen), "023 4");
    screen.scroll(-2);
    assert_eq!(firsts(&screen), "0  24");
    // Nothing goes to the scrollback from a region that is not at the top
    assert_eq!(stored(&screen), Vec::<String>::new());
    assert_eq!(screen.reset_scrolled_lines(), 0);
    screen.set_scroll_region(1, 2);
    screen.scroll(1);
    assert_eq!(firsts(&screen), "   24");
    assert_eq!(stored(&screen), vec!["0"]);
}

#[test]
fn screen_scroll_at_cursor() {
    let mut screen = numbered();
    screen.cursor_set(None, Some(2));
    screen.scroll_at_cursor(1);
    assert_eq!(firsts(&screen), "0234 ");
    screen.scroll_at_cursor(-2);
    assert_eq!(firsts(&screen), "0  23");
    screen.set_scroll_region(1, 3);
    screen.cursor_set(None, Some(5));
    screen.scroll_at_cursor(1);
    assert_eq!(firsts(&screen), "0  23");
    screen.cursor_set(None, Some(2));
    screen.scroll_at_cursor(-1);
    assert_eq!(firsts(&screen), "0  23");
    screen.cursor_set(None, Some(1));
    screen.scroll_at_cursor(-1);
    assert_eq!(firsts(&screen), " 0 23");
}

#[test]
fn screen_index_and_newline() {
    let mut screen = numbered();
    screen.cursor_set(Some(3), Some(1));
    screen.index(true);
    assert_eq!(screen.cursor(), (3, 2));
    screen.index(false);
    screen.index(false);
    assert_eq!(screen.cursor(), (3, 1));
    assert_eq!(firsts(&screen), " 0123");
    screen.cursor_set(None, Some(5));
    screen.newline();
    assert_eq!(firsts(&screen), "0123 ");
    assert_eq!(screen.cursor(), (3, 5));
    screen.set_mode(VTMode::newline(), true);
    screen.newline();
    assert_eq!(screen.cursor(), (1, 5));
    screen.cursor_set(Some(4), Some(2));
    screen.next_line();
    assert_eq!(screen.cursor(), (1, 3));
}

#[test]
fn screen_index_outside_region_stops_at_screen_edge() {
    let mut screen = numbered();
    screen.set_scroll_region(2, 3);
    screen.cursor_set(None, Some(5));
    screen.index(true);
    assert_eq!(screen.cursor(), (1, 5));
    assert_eq!(firsts(&screen), "01234");
    screen.cursor_set(None, Some(1));
    screen.index(false);
    assert_eq!(screen.cursor(), (1, 1));
    assert_eq!(firsts(&screen), "01234");
}

#[test]
fn screen_cursor_set_and_move_are_clamped() {
    let mut screen = Screen::new();
    screen.cursor_set(Some(100), Some(100));
    assert_eq!(screen.cursor(), (10, 5));
    screen.cursor_set(Some(0), Some(0));
    assert_eq!(screen.cursor(), (1, 1));
    screen.cursor_move(-5, -5);
    assert_eq!(screen.cursor(), (1, 1));
    screen.cursor_move(3, 2);
    assert_eq!(screen.cursor(), (4, 3));
    screen.cursor_move(i32::MAX, i32::MIN);
    assert_eq!(screen.cursor(), (10, 1));
    screen.cursor_set(None, Some(4));
    assert_eq!(screen.cursor(), (10, 4));
    screen.cursor_set(Some(2), None);
    assert_eq!(screen.cursor(), (2, 4));
    screen.cursor_set(None, None);
    assert_eq!(screen.cursor(), (2, 4));
}

#[test]
fn screen_origin_mode_keeps_cursor_in_region() {
    let mut screen = Screen::new();
    screen.set_scroll_region(2, 4);
    screen.set_mode(VTMode::origin(), true);
    screen.cursor_set(Some(1), Some(1));
    assert_eq!(screen.cursor(), (1, 2));
    screen.cursor_set(Some(1), Some(5));
    assert_eq!(screen.cursor(), (1, 4));
    screen.cursor_move(0, -10);
    assert_eq!(screen.cursor(), (1, 2));
}

#[test]
fn screen_alignment_test_fills_with_e() {
    let mut screen = Screen::new();
    screen.set_fg(VTColor::Indexed(3));
    screen.alignment_test();
    for y in 0..5 {
        assert_eq!(row(&screen, y), "EEEEEEEEEE");
    }
    assert_eq!(cell(&screen, 9, 4).style, Style::default());
}

#[test]
fn screen_reset_restores_power_on_state() {
    let mut screen = numbered();
    screen.set_scroll_region(2, 4);
    screen.set_mode(VTMode::insert_mode(), true);
    screen.set_fg(VTColor::Indexed(3));
    screen.tabs_clear();
    screen.scroll(1);
    screen.reset();
    assert_eq!(firsts(&screen), "     ");
    assert_eq!(screen.scroll_region(), (0, 4));
    assert_eq!(screen.mode(), VTMode::wrap());
    assert_eq!(screen.cursor(), (1, 1));
    assert!(screen.tab_at(8));
    assert_eq!(screen.size(), (10, 5));
    screen.put_char('x');
    assert_eq!(cell(&screen, 0, 0).col_fg(), VTColor::DefaultFg);
    assert!(screen.scrollback().is_some());
}

#[test]
fn screen_resize_shrink_keeps_bottom_and_evicts_top() {
    let mut screen = Screen::with_size((80, 24)).with_scrollback(MemScrollback::new(1024 * 1024));
    for y in 0..24u32 {
        screen.cursor_set(Some(1), Some(y + 1));
        put_str(&mut screen, &format!("line {:02} xy and more", y));
    }
    screen.resize(10, 5);
    assert_eq!(screen.size(), (10, 5));
    check_invariants(&screen);
    for y in 0..5 {
        assert_eq!(row(&screen, y), format!("line {:02} xy", 19 + y));
    }
    assert_eq!(cell(&screen, 9, 4).as_str(), "y");
    assert_eq!(screen.cursor(), (10, 5));
    assert_eq!(stored(&screen).len(), 19);
    assert_eq!(stored(&screen)[18], "line 18 xy");
    // Resizing back does not restore the evicted lines
    screen.resize(80, 24);
    assert_eq!(screen.size(), (80, 24));
    check_invariants(&screen);
    assert_eq!(row(&screen, 0).trim_end(), "line 19 xy");
    assert_eq!(row(&screen, 4).trim_end(), "line 23 xy");
    for y in 5..24 {
        assert_eq!(row(&screen, y).trim_end(), "");
    }
    assert_eq!(screen.scroll_region(), (0, 23));
    assert_eq!(stored(&screen).len(), 19);
}

#[test]
fn screen_resize_pops_empty_lines_from_bottom_first() {
    let mut screen = Screen::with_size((10, 8)).with_scrollback(MemScrollback::new(1024 * 1024));
    for y in 0..6u32 {
        screen.cursor_set(Some(1), Some(y + 1));
        screen.put_char(char::from_digit(y, 10).unwrap());
    }
    screen.resize(10, 5);
    assert_eq!(firsts(&screen), "12345");
    assert_eq!(stored(&screen), vec!["0"]);
    assert_eq!(screen.cursor(), (2, 5));
}

#[test]
fn screen_resize_clamps_to_minimum() {
    let mut screen = Screen::with_size((20, 10));
    screen.resize(1, 1);
    assert_eq!(screen.size(), (10, 5));
    check_invariants(&screen);
}

#[test]
fn screen_resize_width_and_tabs() {
    let mut screen = Screen::new();
    put_str(&mut screen, "0123456789");
    screen.resize(20, 5);
    assert_eq!(row(&screen, 0), "0123456789          ");
    assert!(screen.tab_at(8));
    assert!(screen.tab_at(16));
    assert!(!screen.tab_at(17));
    // The pending wrap became a plain position in the wider line
    assert_eq!(screen.cursor(), (11, 1));
    screen.resize(12, 5);
    assert_eq!(row(&screen, 0), "0123456789  ");
    assert!(!screen.tab_at(16));
    assert_eq!(screen.cursor(), (11, 1));
    screen.resize(10, 5);
    assert_eq!(screen.cursor(), (10, 1));
    check_invariants(&screen);
}

#[test]
fn screen_resize_scroll_region_follows() {
    let mut screen = Screen::with_size((10, 10));
    screen.resize(10, 12);
    assert_eq!(screen.scroll_region(), (0, 11));
    screen.set_scroll_region(3, 6);
    screen.resize(10, 14);
    assert_eq!(screen.scroll_region(), (2, 5));
    screen.set_scroll_region(8, 12);
    screen.resize(10, 5);
    assert_eq!(screen.scroll_region(), (3, 4));
    check_invariants(&screen);
}

#[test]
fn screen_invariants_hold_after_many_verbs() {
    let mut screen = Screen::new().with_scrollback(MemScrollback::new(64 * 1024));
    let mut seed: u32 = 12345;
    for _ in 0..3000 {
        seed = seed.wrapping_mul(1664525).wrapping_add(1013904223);
        let a = (seed >> 8) % 40;
        let b = (seed >> 16) % 30;
        match seed % 17 {
            0 => screen.put_char('\u{4e2d}'),
            1 => screen.newline(),
            2 => screen.cursor_set(Some(a), Some(b)),
            3 => screen.cursor_move(a as i32 - 20, b as i32 - 15),
            4 => screen.set_scroll_region(a % 8, b % 8),
            5 => screen.scroll(a as i32 - 20),
            6 => screen.scroll_at_cursor(b as i32 - 15),
            7 => screen.resize(a as u16, b as u16),
            8 => screen.tab(a as i32 - 20),
            9 => screen.erase(VTErase::NumChars(a)),
            10 => screen.set_mode(VTMode::from_bits((b % 64) as u8), a % 2 == 0),
            11 => screen.index(a % 2 == 0),
            12 => screen.cursor_load(),
            13 => screen.cursor_save(),
            14 => screen.put_char('\u{301}'),
            15 => screen.erase(VTErase::All),
            _ => screen.put_char('x'),
        }
        check_invariants(&screen);
    }
}

#[test]
fn screen_region_scroll_marks_moved_rows_dirty() {
    let mut screen = numbered();
    screen.render(|_, _, _, _| {});
    screen.set_scroll_region(2, 4);
    screen.scroll(1);
    let dirty_rows = std::cell::RefCell::new(Vec::new());
    screen.render(|_, x, y, dirty| {
        if x == 0 && dirty {
            dirty_rows.borrow_mut().push(y);
        }
    });
    assert_eq!(*dirty_rows.borrow(), vec![1, 2, 3]);
    screen.cursor_set(None, Some(3));
    screen.scroll_at_cursor(-1);
    dirty_rows.borrow_mut().clear();
    screen.render(|_, x, y, dirty| {
        if x == 0 && dirty {
            dirty_rows.borrow_mut().push(y);
        }
    });
    assert_eq!(*dirty_rows.borrow(), vec![2, 3]);
}
