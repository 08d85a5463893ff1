use tp_term::input::{InputData, Key, Modifier};
use tp_term::term::{Term, TermState};
use tp_term::vt::{VTDispatch, VTMode, VTReport, VTScreenChoice};

fn row(state: &TermState, y: usize) -> String {
    state.screen().line_iter()[y].cells.iter().map(|c| c.as_str()).collect()
}

fn small_term() -> Term {
    let mut term = Term::new();
    term.state_mut().screen_resize(10, 5);
    term
}

#[test]
fn term_starts_blank() {
    let term = Term::new();
    assert_eq!(term.state().screen().size(), (80, 40));
    assert_eq!(term.state().mode(), VTMode::wrap());
    assert!(term.state().screen().scrollback().is_some());
    assert_eq!(term.state().pending_reports(), 0);
}

#[test]
fn term_erase_then_place_a_character() {
    let mut term = small_term();
    term.write(b"\x1b[2J");
    term.write(b"\x1b[3;4HX");
    for y in 0..5 {
        for x in 0..10 {
            let cell = &term.state().screen().line_iter()[y].cells[x];
            if (x, y) == (3, 2) {
                assert_eq!(cell.as_str(), "X");
            } else {
                assert_eq!(cell.as_str(), " ");
            }
        }
    }
}

#[test]
fn term_hello() {
    let mut term = small_term();
    term.write(b"Hello!");
    assert_eq!(row(term.state(), 0), "Hello!    ");
    assert_eq!(term.state().screen().cursor(), (7, 1));
}

#[test]
fn term_line_feed_and_carriage_return() {
    let mut term = small_term();
    term.write(b"ab\r\ncd\x08e\tf");
    assert_eq!(row(term.state(), 0), "ab        ");
    assert_eq!(row(term.state(), 1), "ce      f ");
}

#[test]
fn term_bell_and_reports_accumulate_until_drained() {
    let mut term = small_term();
    assert!(!term.state_mut().reset_bell());
    term.write(b"\x07\x05\x1b[c\x1b[6n\x07");
    assert_eq!(term.state().pending_reports(), 3);
    assert!(term.state_mut().reset_bell());
    assert!(!term.state_mut().reset_bell());
    assert_eq!(
        term.state_mut().reset_report_requests(),
        vec![VTReport::AnswerBack, VTReport::PrimaryAttrs, VTReport::CursorPos]
    );
    assert_eq!(term.state_mut().reset_report_requests(), vec![]);
    assert_eq!(term.state().pending_reports(), 0);
}

#[test]
fn term_report_answer_uses_current_cursor() {
    let mut term = small_term();
    term.write(b"\x1b[4;7H");
    let mut buffer = [0u8; 16];
    let size = term.report_answer(VTReport::CursorPos, &mut buffer).unwrap();
    assert_eq!(&buffer[..size], b"\x1b[4;7R");
    assert_eq!(term.report_answer(VTReport::TermParams0, &mut buffer), Err(()));
}

#[test]
fn term_modes_are_mirrored_to_both_screens() {
    let mut term = small_term();
    term.write(b"\x1b[4h\x1b[?6h");
    let mode = term.state().mode();
    assert!(mode.contains(VTMode::insert_mode()));
    assert!(mode.contains(VTMode::origin()));
    assert_eq!(term.state().screen().mode(), mode);
    term.state_mut().switch_screen(VTScreenChoice::Alternate);
    assert_eq!(term.state().screen().mode(), mode);
}

#[test]
fn term_input_follows_newline_mode() {
    let mut term = small_term();
    let mut buffer = [0u8; 8];
    assert_eq!(term.input(InputData::Key(Key::Return, Modifier::none()), &mut buffer), Ok(1));
    assert_eq!(&buffer[..1], b"\r");
    term.write(b"\x1b[20h");
    assert_eq!(term.input(InputData::Key(Key::Return, Modifier::none()), &mut buffer), Ok(2));
    assert_eq!(&buffer[..2], b"\r\n");
}

#[test]
fn term_alternate_screen_1049() {
    let mut term = small_term();
    term.write(b"main\x1b[?1049h");
    assert_eq!(row(term.state(), 0), "          ");
    assert!(term.state().screen().scrollback().is_none());
    term.write(b"\x1b[Halt");
    assert_eq!(row(term.state(), 0), "alt       ");
    term.write(b"\x1b[?1049l");
    assert_eq!(row(term.state(), 0), "main      ");
    assert_eq!(term.state().screen().cursor(), (5, 1));
}

#[test]
fn term_switch_screen_marks_dirty_once() {
    let mut state = TermState::new();
    state.screen_mut().render(|_, _, _, _| {});
    state.switch_screen(VTScreenChoice::Primary);
    let dirty = std::cell::Cell::new(0usize);
    state.screen_mut().render(|_, _, _, d| dirty.set(dirty.get() + d as usize));
    assert_eq!(dirty.get(), 0);
    state.switch_screen(VTScreenChoice::Alternate);
    state.screen_mut().render(|_, _, _, d| dirty.set(dirty.get() + d as usize));
    assert_eq!(dirty.get(), 80 * 40);
}

#[test]
fn term_resize_resizes_both_screens() {
    let mut state = TermState::new();
    state.screen_resize(20, 10);
    assert_eq!(state.screen().size(), (20, 10));
    state.switch_screen(VTScreenChoice::Alternate);
    assert_eq!(state.screen().size(), (20, 10));
}

#[test]
fn term_scrolled_lines_reach_the_scrollback() {
    let mut term = small_term();
    term.write(b"one\r\ntwo\r\nthree\r\nfour\r\nfive\r\nsix\r\nseven");
    assert_eq!(row(term.state(), 0), "three     ");
    assert_eq!(row(term.state(), 4), "seven     ");
    let screen = term.state().screen();
    let scrollback = screen.scrollback().unwrap();
    assert_eq!(scrollback.len(), 2);
    let lines = scrollback.iter();
    assert_eq!(lines[0].pieces()[0].string, "one");
    assert_eq!(lines[1].pieces()[0].string, "two");
}

#[test]
fn term_sgr_zero_gives_the_default_style() {
    let mut term = small_term();
    term.write(b"\x1b[1;4;31;44mA\x1b[0mB\x1b[7;38;5;9mC\x1b[mD");
    let screen = term.state().screen();
    let cells = &screen.line_iter()[0].cells;
    assert_eq!(cells[0].col_fg(), tp_term::vt::VTColor::Indexed(1));
    assert_eq!(cells[0].col_bg(), tp_term::vt::VTColor::Indexed(4));
    assert_eq!(cells[1].style, tp_term::cell::Style::default());
    assert_eq!(cells[1].as_str(), "B");
    assert_eq!(cells[2].col_fg(), tp_term::vt::VTColor::Indexed(9));
    assert_eq!(cells[3].style, tp_term::cell::Style::default());
}

#[test]
fn term_combining_marks_survive_the_scrollback() {
    let mut term = small_term();
    term.write("e\u{301}x \u{4e2d}o\u{308}\r\n\n\n\n\n".as_bytes());
    let screen = term.state().screen();
    let scrollback = screen.scrollback().unwrap();
    assert_eq!(scrollback.len(), 1);
    let joined: String =
        scrollback.iter()[0].pieces().iter().map(|p| p.string.clone()).collect();
    // A mark joins the cell under the cursor: the first one is overwritten
    // by the `x`, the second one stays with the blank cell after the `o`.
    assert_eq!(joined, "ex \u{4e2d} o \u{308}");
}
