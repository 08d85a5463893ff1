use tp_term::input::{InputData, Key, Modifier, VTInput};
use tp_term::screen::Screen;
use tp_term::vt::{VTMode, VTReport};

fn encode(input: InputData, mode: VTMode) -> Vec<u8> {
    let mut buffer = [0u8; 32];
    let size = VTInput.input(input, mode, &mut buffer).unwrap();
    buffer[..size].to_vec()
}

fn key(key: Key, modifier: Modifier) -> Vec<u8> {
    encode(InputData::Key(key, modifier), VTMode::default())
}

fn fkey(num: u8, modifier: Modifier) -> Vec<u8> {
    encode(InputData::FKey(num, modifier), VTMode::default())
}

fn ch(c: char, modifier: Modifier) -> Vec<u8> {
    encode(InputData::Char(c, modifier), VTMode::default())
}

#[test]
fn modifier_escape_arg() {
    assert!(Modifier::none().is_none());
    assert!(!Modifier::shift().is_none());
    assert_eq!(Modifier::none().escape_arg(), b'0');
    assert_eq!(Modifier::shift().escape_arg(), b'2');
    assert_eq!(Modifier::alt().escape_arg(), b'3');
    assert_eq!(Modifier::shift().union(Modifier::alt()).escape_arg(), b'4');
    assert_eq!(Modifier::control().escape_arg(), b'5');
    assert_eq!(Modifier::from_bits(7).escape_arg(), b'8');
    assert_eq!(Modifier::default(), Modifier::none());
}

#[test]
fn modifier_encode_into() {
    let mut out = vec![b'x'];
    assert_eq!(Modifier::none().encode_into(true, &mut out), 0);
    assert_eq!(out, b"x");
    assert_eq!(Modifier::control().encode_into(true, &mut out), 2);
    assert_eq!(out, b"x;5");
    assert_eq!(Modifier::shift().encode_into(false, &mut out), 1);
    assert_eq!(out, b"x;52");
}

#[test]
fn input_cursor_keys() {
    assert_eq!(key(Key::Up, Modifier::none()), b"\x1b[A");
    assert_eq!(key(Key::Down, Modifier::none()), b"\x1b[B");
    assert_eq!(key(Key::Right, Modifier::none()), b"\x1b[C");
    assert_eq!(key(Key::Left, Modifier::none()), b"\x1b[D");
    assert_eq!(key(Key::Up, Modifier::shift()), b"\x1b[2A");
    assert_eq!(key(Key::Left, Modifier::control()), b"\x1b[5D");
    let app = VTMode::app_cursor_keys();
    assert_eq!(encode(InputData::Key(Key::Up, Modifier::none()), app), b"\x1bOA");
    assert_eq!(encode(InputData::Key(Key::Down, Modifier::alt()), app), b"\x1bO3B");
    assert_eq!(encode(InputData::Key(Key::Home, Modifier::none()), app), b"\x1b[H");
}

#[test]
fn input_editing_keys() {
    assert_eq!(key(Key::Home, Modifier::none()), b"\x1b[H");
    assert_eq!(key(Key::End, Modifier::none()), b"\x1b[F");
    assert_eq!(key(Key::PageUp, Modifier::none()), b"\x1b[5~");
    assert_eq!(key(Key::PageDown, Modifier::none()), b"\x1b[6~");
    assert_eq!(key(Key::Insert, Modifier::none()), b"\x1b[2~");
    assert_eq!(key(Key::Delete, Modifier::none()), b"\x1b[3~");
    assert_eq!(key(Key::Delete, Modifier::shift()), b"\x1b[3;2~");
    assert_eq!(key(Key::End, Modifier::alt()), b"\x1b[3F");
}

#[test]
fn input_return_tab_backspace() {
    assert_eq!(key(Key::Return, Modifier::none()), b"\r");
    assert_eq!(key(Key::Return, Modifier::alt()), b"\x1b\r");
    assert_eq!(encode(InputData::Key(Key::Return, Modifier::none()), VTMode::newline()), b"\r\n");
    assert_eq!(encode(InputData::Key(Key::Return, Modifier::shift()), VTMode::newline()), b"\r");
    assert_eq!(key(Key::Tab, Modifier::none()), b"\t");
    assert_eq!(key(Key::Tab, Modifier::alt()), b"\x1b\t");
    assert_eq!(key(Key::Backspace, Modifier::none()), b"\x7f");
    assert_eq!(key(Key::Backspace, Modifier::alt()), b"\x1b\x7f");
}

#[test]
fn input_function_keys() {
    assert_eq!(fkey(1, Modifier::none()), b"\x1bOP");
    assert_eq!(fkey(2, Modifier::none()), b"\x1bOQ");
    assert_eq!(fkey(3, Modifier::none()), b"\x1bOR");
    assert_eq!(fkey(4, Modifier::shift()), b"\x1bO2S");
    let codes = [15, 17, 18, 19, 20, 21, 23, 24, 25, 26, 28, 29, 31, 32, 33, 34];
    for (i, code) in codes.iter().enumerate() {
        let expect = format!("\x1b[{}~", code).into_bytes();
        assert_eq!(fkey(5 + i as u8, Modifier::none()), expect);
    }
    assert_eq!(fkey(5, Modifier::control()), b"\x1b[15;5~");
    assert_eq!(fkey(0, Modifier::none()), b"");
    assert_eq!(fkey(21, Modifier::none()), b"");
}

#[test]
fn input_characters() {
    assert_eq!(ch('a', Modifier::none()), b"a");
    assert_eq!(ch('a', Modifier::alt()), b"\x1ba");
    assert_eq!(ch('a', Modifier::control()), b"\x01");
    assert_eq!(ch('C', Modifier::control()), b"\x03");
    assert_eq!(ch('[', Modifier::control()), b"\x1b");
    assert_eq!(ch('c', Modifier::control().union(Modifier::alt())), b"\x1b\x03");
    assert_eq!(ch('1', Modifier::control()), b"1");
    assert_eq!(ch('\u{7f}', Modifier::control()), b"\x1f");
    // Modifiers do not change characters outside ASCII
    assert_eq!(ch('\u{e9}', Modifier::none()), "\u{e9}".as_bytes());
    assert_eq!(ch('\u{e9}', Modifier::control().union(Modifier::alt())), "\u{e9}".as_bytes());
    assert_eq!(ch('\u{20ac}', Modifier::alt()), "\u{20ac}".as_bytes());
    assert_eq!(ch('\u{1f600}', Modifier::none()), "\u{1f600}".as_bytes());
}

#[test]
fn input_strings_and_nothing() {
    assert_eq!(encode(InputData::Str("ls -l\n"), VTMode::default()), b"ls -l\n");
    assert_eq!(encode(InputData::Empty, VTMode::default()), b"");
}

#[test]
fn input_buffer_too_small_writes_nothing() {
    let mut buffer = [0xaau8; 2];
    assert_eq!(VTInput.input(InputData::Key(Key::Up, Modifier::none()), VTMode::default(), &mut buffer), Err(()));
    assert_eq!(buffer, [0xaa, 0xaa]);
    assert_eq!(VTInput.input(InputData::Str("abc"), VTMode::default(), &mut buffer), Err(()));
    assert_eq!(buffer, [0xaa, 0xaa]);
    assert_eq!(VTInput.input(InputData::Char('\u{20ac}', Modifier::none()), VTMode::default(), &mut buffer), Err(()));
    assert_eq!(buffer, [0xaa, 0xaa]);
    assert_eq!(VTInput.input(InputData::Str("ab"), VTMode::default(), &mut buffer), Ok(2));
    assert_eq!(buffer, [b'a', b'b']);
    let mut roomy = [0xaau8; 4];
    assert_eq!(VTInput.input(InputData::Char('x', Modifier::none()), VTMode::default(), &mut roomy), Ok(1));
    assert_eq!(roomy, [b'x', 0xaa, 0xaa, 0xaa]);
}

fn report(screen: &Screen, report: VTReport) -> Vec<u8> {
    let mut buffer = [0u8; 64];
    let size = VTInput.report_answer(screen, report, &mut buffer).unwrap();
    buffer[..size].to_vec()
}

#[test]
fn report_answers() {
    let mut screen = Screen::with_size((80, 24));
    assert_eq!(report(&screen, VTReport::AnswerBack), b"TeePee");
    assert_eq!(report(&screen, VTReport::PrimaryAttrs), b"\x1b[?1;2c");
    assert_eq!(report(&screen, VTReport::SecondaryAttrs), b"\x1b>0;0;0c");
    assert_eq!(report(&screen, VTReport::DeviceStatus), b"\x1b[0n");
    assert_eq!(report(&screen, VTReport::TermParams0), b"\x1b[2;1;1;120;120;1;0;x");
    assert_eq!(report(&screen, VTReport::TermParams1), b"\x1b[3;1;1;120;120;1;0;x");
    assert_eq!(report(&screen, VTReport::CursorPos), b"\x1b[1;1R");
    screen.cursor_set(Some(80), Some(12));
    assert_eq!(report(&screen, VTReport::CursorPos), b"\x1b[12;80R");
    let mut small = [0u8; 3];
    assert_eq!(VTInput.report_answer(&screen, VTReport::CursorPos, &mut small), Err(()));
    assert_eq!(small, [0, 0, 0]);
}
