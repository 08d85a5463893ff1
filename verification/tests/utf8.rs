use tp_term::utf8::{Parser, REPLACE_CHAR};

#[test]
fn lib_it_works() {
    assert_eq!(2 + 2, 4);
}

#[test]
fn utf8_smoke() {
    assert_eq!(Parser::parse_lossy(b"Ahoj, sv\xc4\x9bte!"), "Ahoj, sv\u{11b}te!", "Hello, World!");
    assert_eq!(
        Parser::parse_lossy(
            b"\xf0\x9d\x94\x98\xf0\x9d\x94\xab\xf0\x9d\x94\xa6\xf0\x9d\x94\xa0\xf0\x9d\x94\xac\xf0\x9d\x94\xa1\xf0\x9d\x94\xa2"
        ),
        "\u{1d518}\u{1d52b}\u{1d526}\u{1d520}\u{1d52c}\u{1d521}\u{1d522}",
        "\"Unicode\" in Mathematical Fraktur"
    );
}

#[test]
fn utf8_boundary() {
    assert_eq!(Parser::parse_lossy(b"\x00"), "\u{00}", "1-byte lower boundary");
    assert_eq!(Parser::parse_lossy(b"\x7f"), "\u{7f}", "1-byte upper boundary");
    assert_eq!(Parser::parse_lossy(b"\xc2\x80"), "\u{80}", "2-byte lower boundary");
    assert_eq!(Parser::parse_lossy(b"\xdf\xbf"), "\u{7ff}", "2-byte upper boundary");
    assert_eq!(Parser::parse_lossy(b"\xe8\x80\x80"), "\u{8000}", "3-byte lower boundary");
    assert_eq!(Parser::parse_lossy(b"\xef\xbf\xbf"), "\u{ffff}", "3-byte upper boundary");
    assert_eq!(Parser::parse_lossy(b"\xf0\x90\x80\x80"), "\u{10000}", "4-byte lower boundary");
    assert_eq!(Parser::parse_lossy(b"\xf4\x8f\xbf\xbf"), "\u{10ffff}", "4-byte upper boundary");
}

#[test]
fn utf8_overlongs() {
    assert!(Parser::parse(b"\xc1\xbf").is_err(), "2-byte overlong");
    assert!(Parser::parse(b"\xe0\x80\xbf").is_err(), "3-byte overlong");
    assert!(Parser::parse(b"\xe0\x9f\xbf").is_err(), "3-byte overlong");
    assert!(Parser::parse(b"\xf0\x80\x81\xbf").is_err(), "4-byte overlong");
    assert!(Parser::parse(b"\xf0\x80\x9f\xbf").is_err(), "4-byte overlong");
    assert!(Parser::parse(b"\xf0\x8f\xbf\xbf").is_err(), "4-byte overlong");
}

#[test]
fn utf8_continuations() {
    assert_eq!(Parser::parse_lossy(b"TE\xa0ST"), "TE\u{fffd}ST", "Unexpected continuation byte");
    assert_eq!(Parser::parse_lossy(b"\xc4TEST"), "\u{fffd}EST", "Insufficient continuation bytes - 2-bytes - 1/2");
    assert_eq!(Parser::parse_lossy(b"\xe2TEST"), "\u{fffd}EST", "Insufficient continuation bytes - 3-bytes - 1/3");
    assert_eq!(Parser::parse_lossy(b"\xe2\xb0TEST"), "\u{fffd}EST", "Insufficient continuation bytes - 3-bytes - 2/3");
    assert_eq!(Parser::parse_lossy(b"\xf0TEST"), "\u{fffd}EST", "Insufficient continuation bytes - 4-bytes - 1/4");
    assert_eq!(Parser::parse_lossy(b"\xf0\x9dTEST"), "\u{fffd}EST", "Insufficient continuation bytes - 4-bytes - 2/4");
    assert_eq!(Parser::parse_lossy(b"\xf0\x9d\x94TEST"), "\u{fffd}EST", "Insufficient continuation bytes - 4-bytes - 3/4");
}

#[test]
fn utf8_out_of_range() {
    assert_eq!(Parser::parse_lossy(b"\xF4\x90\x80\x80TEST"), "\u{fffd}TEST", "Code point over U+10FFFF");
    assert_eq!(
        Parser::parse_lossy(b"\xF9\x80\x80\x80\x81TEST"),
        "\u{fffd}\u{fffd}\u{fffd}\u{fffd}\u{fffd}TEST",
        "5-byte utf-8"
    );
    assert_eq!(
        Parser::parse_lossy(b"\xFD\x80\x80\x80\x80\x81TEST"),
        "\u{fffd}\u{fffd}\u{fffd}\u{fffd}\u{fffd}\u{fffd}TEST",
        "6-byte utf-8"
    );
}

#[test]
fn utf8_parser_reset() {
    let mut parser = Parser::new();
    parser.input(b'\xc2'); // Expects a continuation byte
    let _ = parser.reset();
    assert_eq!(parser.input(b'a'), Some(Ok('a')), "Parser reset");
}

#[test]
fn utf8_reset_reports_incomplete_character() {
    let mut parser = Parser::new();
    assert_eq!(parser.reset(), Ok(()));
    assert_eq!(parser.input(0xe2), None);
    assert_eq!(parser.reset(), Err(()));
    assert_eq!(parser.reset(), Ok(()));
}

#[test]
fn utf8_input_step_by_step() {
    let mut parser = Parser::new();
    assert_eq!(parser.input(0xf4), None);
    assert_eq!(parser.input(0x8f), None);
    assert_eq!(parser.input(0xbf), None);
    assert_eq!(parser.input(0xbf), Some(Ok('\u{10ffff}')));
    assert_eq!(parser.input(0x80), Some(Err(())));
    assert_eq!(parser.input(0xf5), Some(Err(())));
}

#[test]
fn utf8_invalid_byte_inside_sequence_is_consumed() {
    // The byte that breaks a sequence is used up by the error: it does not
    // start a new character.
    assert_eq!(Parser::parse_lossy(b"\xe2\xc3\xa9"), "\u{fffd}\u{fffd}");
    assert_eq!(Parser::parse_lossy(b"\xc3A"), "\u{fffd}");
}

#[test]
fn utf8_surrogates_are_errors() {
    assert!(Parser::parse(b"\xed\xa0\x80").is_err());
    assert_eq!(Parser::parse_lossy(b"\xed\xbf\xbf"), REPLACE_CHAR.to_string());
}

#[test]
fn utf8_strict_parse_of_valid_text() {
    assert_eq!(Parser::parse("gr\u{fc}n \u{20ac}".as_bytes()), Ok("gr\u{fc}n \u{20ac}".to_string()));
    assert_eq!(Parser::parse(b""), Ok(String::new()));
    // A sequence cut short by the end of the input is dropped
    assert_eq!(Parser::parse(b"ab\xc3"), Ok("ab".to_string()));
}
