use tp_term::parser::VTParser;
use tp_term::vt::{
    VTCharset, VTColor, VTDispatch, VTEffect, VTErase, VTMode, VTRendition, VTReport, VTScreen,
    VTScreenChoice, VTTarget, VTVerb,
};

type Call = (&'static str, Vec<String>);

#[derive(Debug, Default)]
struct TestDispatch {
    calls: Vec<Call>,
}

impl TestDispatch {
    fn calls(&mut self) -> Vec<Call> {
        std::mem::replace(&mut self.calls, vec![])
    }

    fn call(&mut self, name: &'static str, args: Vec<String>) {
        self.calls.push((name, args));
    }
}

impl VTScreen for TestDispatch {
    type V = ();

    fn model(&self) -> Self::V {}
    fn inv(&self) -> bool { true }
    fn act(_v: Self::V, _verb: VTVerb) -> Self::V {}

    fn put_char(&mut self, ch: char) { self.call("put_char", vec![format!("{:?}", ch)]) }
    fn put_chars(&mut self, num: u32) { self.call("put_chars", vec![format!("{:?}", num)]) }
    fn newline(&mut self) { self.call("newline", vec![]) }
    fn index(&mut self, forward: bool) { self.call("index", vec![format!("{:?}", forward)]) }
    fn next_line(&mut self) { self.call("next_line", vec![]) }
    fn erase(&mut self, erase: VTErase) { self.call("erase", vec![format!("{:?}", erase)]) }
    fn tab(&mut self, tabs: i32) { self.call("tab", vec![format!("{:?}", tabs)]) }
    fn tab_set(&mut self, tab: bool) { self.call("tab_set", vec![format!("{:?}", tab)]) }
    fn tabs_clear(&mut self) { self.call("tabs_clear", vec![]) }
    fn reset(&mut self) { self.call("reset", vec![]) }
    fn resize(&mut self, cols: u32, rows: u32) {
        self.call("resize", vec![format!("{:?}", cols), format!("{:?}", rows)])
    }
    fn scroll(&mut self, num: i32) { self.call("scroll", vec![format!("{:?}", num)]) }
    fn scroll_at_cursor(&mut self, num: i32) { self.call("scroll_at_cursor", vec![format!("{:?}", num)]) }
    fn set_scroll_region(&mut self, top: u32, bottom: u32) {
        self.call("set_scroll_region", vec![format!("{:?}", top), format!("{:?}", bottom)])
    }
    fn set_mode(&mut self, mode: VTMode, enable: bool) {
        self.call("set_mode", vec![format!("{:?}", mode), format!("{:?}", enable)])
    }
    fn set_rendition(&mut self, rend: VTRendition, enable: bool) {
        self.call("set_rendition", vec![format!("{:?}", rend), format!("{:?}", enable)])
    }
    fn set_fg(&mut self, color: VTColor) { self.call("set_fg", vec![format!("{:?}", color)]) }
    fn set_bg(&mut self, color: VTColor) { self.call("set_bg", vec![format!("{:?}", color)]) }
    fn charset_use(&mut self, slot: u32) { self.call("charset_use", vec![format!("{:?}", slot)]) }
    fn charset_designate(&mut self, slot: u32, charset: VTCharset) {
        self.call("charset_designate", vec![format!("{:?}", slot), format!("{:?}", charset)])
    }
    fn cursor_set(&mut self, x: Option<u32>, y: Option<u32>) {
        self.call("cursor_set", vec![format!("{:?}", x), format!("{:?}", y)])
    }
    fn cursor_move(&mut self, x: i32, y: i32) {
        self.call("cursor_move", vec![format!("{:?}", x), format!("{:?}", y)])
    }
    fn cursor_save(&mut self) { self.call("cursor_save", vec![]) }
    fn cursor_load(&mut self) { self.call("cursor_load", vec![]) }
    fn alignment_test(&mut self) { self.call("alignment_test", vec![]) }
}

impl VTDispatch for TestDispatch {
    type Screen = TestDispatch;
    type V = ();

    fn model(&self) -> Self::V {}
    fn inv(&self) -> bool { true }
    fn screen_at(_v: Self::V, _target: VTTarget) -> Self::V {}
    fn with_screen(_v: Self::V, _target: VTTarget, _screen: Self::V) -> Self::V {}
    fn act(_v: Self::V, _effect: VTEffect) -> Self::V {}

    fn screen(&mut self) -> &mut Self::Screen { self }
    fn screen_primary(&mut self) -> &mut Self::Screen { self }
    fn screen_alternate(&mut self) -> &mut Self::Screen { self }

    fn switch_screen(&mut self, screen: VTScreenChoice) {
        self.call("switch_screen", vec![format!("{:?}", screen)])
    }
    fn set_mode(&mut self, mode: VTMode, enable: bool) {
        self.call("set_mode", vec![format!("{:?}", mode), format!("{:?}", enable)])
    }
    fn report_request(&mut self, report: VTReport) {
        self.call("report_request", vec![format!("{:?}", report)])
    }
    fn bell(&mut self) { self.call("bell", vec![]) }
}

fn parse(input: &[u8]) -> Vec<Call> {
    let mut parser = VTParser::new();
    let mut dispatch = TestDispatch::default();
    parser.input(input, &mut dispatch);
    dispatch.calls()
}

fn effects(input: &[u8]) -> Vec<VTEffect> {
    let mut parser = VTParser::new();
    let mut out = Vec::new();
    for byte in input {
        parser.advance(*byte, &mut out);
    }
    out
}

fn on_screen(verb: VTVerb) -> VTEffect {
    VTEffect::Screen(VTTarget::Current, verb)
}

fn sgr_reset() -> Vec<VTEffect> {
    vec![
        on_screen(VTVerb::SetRendition(VTRendition::all(), false)),
        on_screen(VTVerb::SetFg(VTColor::DefaultFg)),
        on_screen(VTVerb::SetBg(VTColor::DefaultBg)),
    ]
}

fn call0(name: &'static str) -> Call {
    (name, vec![])
}

fn call1(name: &'static str, arg: String) -> Call {
    (name, vec![arg])
}

#[test]
fn put_char() {
    assert_eq!(parse(b"Hello!"), vec![
        call1("put_char", format!("{:?}", 'H')),
        call1("put_char", format!("{:?}", 'e')),
        call1("put_char", format!("{:?}", 'l')),
        call1("put_char", format!("{:?}", 'l')),
        call1("put_char", format!("{:?}", 'o')),
        call1("put_char", format!("{:?}", '!')),
    ]);
}

#[test]
fn cancelations() {
    assert_eq!(parse(b"\x1b[1;30\x18\x1b[34m"), vec![call1("set_fg", format!("{:?}", VTColor::Indexed(4)))]);
    assert_eq!(parse(b"\x1b[1;30\x1a\x1b[34m"), vec![call1("set_fg", format!("{:?}", VTColor::Indexed(4)))]);
}

#[test]
fn interleave_csi_c0() {
    assert_eq!(parse(b"\x1b[1;\x0530\x18\x1b[3\x0e4m"), vec![
        call1("report_request", format!("{:?}", VTReport::AnswerBack)),
        call1("charset_use", format!("{:?}", 1)),
        call1("set_fg", format!("{:?}", VTColor::Indexed(4))),
    ]);
}

#[test]
fn alignment_test() {
    assert_eq!(parse(b"\x1b#8"), vec![call0("alignment_test")]);
}

#[test]
fn c0_controls_execute_in_place() {
    assert_eq!(effects(b"\x05\x07\x08\x09\x0a\x0b\x0c\x0d\x0e\x0f"), vec![
        VTEffect::Report(VTReport::AnswerBack),
        VTEffect::Bell,
        on_screen(VTVerb::CursorMove(-1, 0)),
        on_screen(VTVerb::Tab(1)),
        on_screen(VTVerb::Newline),
        on_screen(VTVerb::Newline),
        on_screen(VTVerb::Newline),
        on_screen(VTVerb::CursorSet(Some(1), None)),
        on_screen(VTVerb::CharsetUse(1)),
        on_screen(VTVerb::CharsetUse(0)),
    ]);
    // The other C0 controls and DEL are ignored
    assert_eq!(effects(b"\x00\x01\x02\x03\x04\x06\x10\x11\x17\x19\x1c\x1f\x7f"), vec![]);
}

#[test]
fn escape_sequences() {
    assert_eq!(effects(b"\x1bD\x1bE\x1bH\x1bM\x1bZ\x1b7\x1b8\x1bc\x1bn\x1bo"), vec![
        on_screen(VTVerb::Index(true)),
        on_screen(VTVerb::NextLine),
        on_screen(VTVerb::TabSet(true)),
        on_screen(VTVerb::Index(false)),
        VTEffect::Report(VTReport::PrimaryAttrs),
        on_screen(VTVerb::CursorSave),
        on_screen(VTVerb::CursorLoad),
        on_screen(VTVerb::Reset),
        on_screen(VTVerb::CharsetUse(2)),
        on_screen(VTVerb::CharsetUse(3)),
    ]);
}

#[test]
fn charset_designation() {
    assert_eq!(effects(b"\x1b(0\x1b)B\x1b*0\x1b+B\x1b(A"), vec![
        on_screen(VTVerb::CharsetDesignate(0, VTCharset::Graphics)),
        on_screen(VTVerb::CharsetDesignate(1, VTCharset::UsAscii)),
        on_screen(VTVerb::CharsetDesignate(2, VTCharset::Graphics)),
        on_screen(VTVerb::CharsetDesignate(3, VTCharset::UsAscii)),
    ]);
}

#[test]
fn csi_cursor_and_scroll() {
    assert_eq!(effects(b"\x1b[5@\x1b[A\x1b[2B\x1b[3C\x1b[4D\x1b[7G\x1b[3;4H\x1b[f\x1b[9d"), vec![
        on_screen(VTVerb::PutChars(5)),
        on_screen(VTVerb::CursorMove(0, -1)),
        on_screen(VTVerb::CursorMove(0, 2)),
        on_screen(VTVerb::CursorMove(3, 0)),
        on_screen(VTVerb::CursorMove(-4, 0)),
        on_screen(VTVerb::CursorSet(Some(7), None)),
        on_screen(VTVerb::CursorSet(Some(4), Some(3))),
        on_screen(VTVerb::CursorSet(Some(1), Some(1))),
        on_screen(VTVerb::CursorSet(None, Some(9))),
    ]);
    assert_eq!(effects(b"\x1b[2I\x1b[Z\x1b[L\x1b[2M\x1b[3S\x1b[T\x1b[4P\x1b[X\x1b[2;10r\x1b[r\x1b[s\x1b[u"), vec![
        on_screen(VTVerb::Tab(2)),
        on_screen(VTVerb::Tab(-1)),
        on_screen(VTVerb::ScrollAtCursor(-1)),
        on_screen(VTVerb::ScrollAtCursor(2)),
        on_screen(VTVerb::Scroll(3)),
        on_screen(VTVerb::Scroll(-1)),
        on_screen(VTVerb::Erase(VTErase::NumChars(4))),
        on_screen(VTVerb::Erase(VTErase::NumChars(1))),
        on_screen(VTVerb::SetScrollRegion(2, 10)),
        on_screen(VTVerb::SetScrollRegion(0, 0)),
        on_screen(VTVerb::CursorSave),
        on_screen(VTVerb::CursorLoad),
    ]);
}

#[test]
fn csi_erase_tabs_and_reports() {
    assert_eq!(effects(b"\x1b[J\x1b[1J\x1b[2J\x1b[K\x1b[1K\x1b[2K\x1b[3J"), vec![
        on_screen(VTVerb::Erase(VTErase::Below)),
        on_screen(VTVerb::Erase(VTErase::Above)),
        on_screen(VTVerb::Erase(VTErase::All)),
        on_screen(VTVerb::Erase(VTErase::LineRight)),
        on_screen(VTVerb::Erase(VTErase::LineLeft)),
        on_screen(VTVerb::Erase(VTErase::Line)),
    ]);
    assert_eq!(effects(b"\x1b[g\x1b[3g\x1b[1g"), vec![
        on_screen(VTVerb::TabSet(false)),
        on_screen(VTVerb::TabsClear),
    ]);
    assert_eq!(effects(b"\x1b[c\x1b[>c\x1b[5n\x1b[6n\x1b[x\x1b[1x\x1b[2x"), vec![
        VTEffect::Report(VTReport::PrimaryAttrs),
        VTEffect::Report(VTReport::SecondaryAttrs),
        VTEffect::Report(VTReport::DeviceStatus),
        VTEffect::Report(VTReport::CursorPos),
        VTEffect::Report(VTReport::TermParams0),
        VTEffect::Report(VTReport::TermParams1),
    ]);
}

#[test]
fn csi_modes() {
    assert_eq!(effects(b"\x1b[4;20h\x1b[4l\x1b[7h"), vec![
        VTEffect::SetMode(VTMode::insert_mode(), true),
        VTEffect::SetMode(VTMode::newline(), true),
        VTEffect::SetMode(VTMode::insert_mode(), false),
    ]);
    let home = VTVerb::CursorSet(Some(1), Some(1));
    assert_eq!(effects(b"\x1b[?5h\x1b[?6l\x1b[?20h"), vec![
        VTEffect::SetMode(VTMode::reverse_video(), true),
        VTEffect::SetMode(VTMode::origin(), false),
        VTEffect::Screen(VTTarget::Primary, home),
        VTEffect::Screen(VTTarget::Alternate, home),
        VTEffect::SetMode(VTMode::newline(), true),
    ]);
    assert_eq!(effects(b"\x1b[?47h\x1b[?1047l\x1b[?1048h\x1b[?1048l"), vec![
        VTEffect::SwitchScreen(VTScreenChoice::Primary),
        VTEffect::SwitchScreen(VTScreenChoice::Alternate),
        on_screen(VTVerb::CursorSave),
        on_screen(VTVerb::CursorLoad),
    ]);
    assert_eq!(effects(b"\x1b[?1049h\x1b[?1049l"), vec![
        VTEffect::Screen(VTTarget::Primary, VTVerb::CursorSave),
        VTEffect::SwitchScreen(VTScreenChoice::Alternate),
        VTEffect::Screen(VTTarget::Alternate, VTVerb::Erase(VTErase::All)),
        VTEffect::SwitchScreen(VTScreenChoice::Primary),
        VTEffect::Screen(VTTarget::Primary, VTVerb::CursorLoad),
    ]);
}

#[test]
fn sgr() {
    assert_eq!(effects(b"\x1b[m"), sgr_reset());
    assert_eq!(effects(b"\x1b[0m"), sgr_reset());
    assert_eq!(effects(b"\x1b[0;1;4;5;7;8m"), vec![
        on_screen(VTVerb::SetRendition(VTRendition::all(), false)),
        on_screen(VTVerb::SetFg(VTColor::DefaultFg)),
        on_screen(VTVerb::SetBg(VTColor::DefaultBg)),
        on_screen(VTVerb::SetRendition(VTRendition::bold(), true)),
        on_screen(VTVerb::SetRendition(VTRendition::underlined(), true)),
        on_screen(VTVerb::SetRendition(VTRendition::blinking(), true)),
        on_screen(VTVerb::SetRendition(VTRendition::inverse(), true)),
        on_screen(VTVerb::SetRendition(VTRendition::invisible(), true)),
    ]);
    assert_eq!(effects(b"\x1b[22;24;25;27;28m"), vec![
        on_screen(VTVerb::SetRendition(VTRendition::bold(), false)),
        on_screen(VTVerb::SetRendition(VTRendition::underlined(), false)),
        on_screen(VTVerb::SetRendition(VTRendition::blinking(), false)),
        on_screen(VTVerb::SetRendition(VTRendition::inverse(), false)),
        on_screen(VTVerb::SetRendition(VTRendition::invisible(), false)),
    ]);
    assert_eq!(effects(b"\x1b[31;42;97;100;39;49m"), vec![
        on_screen(VTVerb::SetFg(VTColor::Indexed(1))),
        on_screen(VTVerb::SetBg(VTColor::Indexed(2))),
        on_screen(VTVerb::SetFg(VTColor::Indexed(15))),
        on_screen(VTVerb::SetBg(VTColor::Indexed(8))),
        on_screen(VTVerb::SetFg(VTColor::DefaultFg)),
        on_screen(VTVerb::SetBg(VTColor::DefaultBg)),
    ]);
    assert_eq!(effects(b"\x1b[38;5;200;48;2;1;2;3;1m"), vec![
        on_screen(VTVerb::SetFg(VTColor::Indexed(200))),
        on_screen(VTVerb::SetBg(VTColor::Rgb(1, 2, 3))),
        on_screen(VTVerb::SetRendition(VTRendition::bold(), true)),
    ]);
    // Sub-sequences that make no sense end the whole sequence
    assert_eq!(effects(b"\x1b[1;38;5;300;4m"), vec![on_screen(VTVerb::SetRendition(VTRendition::bold(), true))]);
    assert_eq!(effects(b"\x1b[38;2;1;2m"), vec![]);
    assert_eq!(effects(b"\x1b[1;99;4m"), vec![on_screen(VTVerb::SetRendition(VTRendition::bold(), true))]);
}

#[test]
fn params_limits() {
    // The 17th parameter keeps its first digit, the rest is dropped
    let kept = effects(b"\x1b[1;1;1;1;1;1;1;1;1;1;1;1;1;1;1;1;42;7;7m");
    assert_eq!(kept.len(), 17);
    assert_eq!(kept[16], on_screen(VTVerb::SetRendition(VTRendition::underlined(), true)));
    // Numbers that overflow keep the last value that fits
    assert_eq!(effects(b"\x1b[99999999999999999999C"), vec![on_screen(VTVerb::CursorMove(999999999, 0))]);
    // A zero parameter counts as left out
    assert_eq!(effects(b"\x1b[0C"), vec![on_screen(VTVerb::CursorMove(1, 0))]);
}

#[test]
fn csi_ignore_and_intermediates() {
    assert_eq!(effects(b"\x1b[1:2mX"), vec![on_screen(VTVerb::PutChar('X'))]);
    assert_eq!(effects(b"\x1b[1?mX"), vec![on_screen(VTVerb::PutChar('X'))]);
    assert_eq!(effects(b"\x1b[1 qX"), vec![on_screen(VTVerb::PutChar('X'))]);
    assert_eq!(effects(b"\x1b[=5hX"), vec![on_screen(VTVerb::PutChar('X'))]);
}

#[test]
fn control_strings_are_ignored() {
    assert_eq!(effects(b"\x1b]0;title\x07more\x1b\\X"), vec![on_screen(VTVerb::PutChar('X'))]);
    assert_eq!(effects(b"\x1bPq#0\x18X"), vec![on_screen(VTVerb::PutChar('X'))]);
    assert_eq!(effects(b"\x1b_TPstuff\x1b\\X"), vec![on_screen(VTVerb::PutChar('X'))]);
    assert_eq!(effects(b"\x1b_Gstuff\x1aX"), vec![on_screen(VTVerb::PutChar('X'))]);
    assert_eq!(effects(b"\x1b^pm\x1b\\\x1bXsos\x1b\\X"), vec![on_screen(VTVerb::PutChar('X'))]);
}

#[test]
fn text_is_decoded_as_utf8() {
    assert_eq!(effects("\u{e9}\u{4e2d}".as_bytes()), vec![
        on_screen(VTVerb::PutChar('\u{e9}')),
        on_screen(VTVerb::PutChar('\u{4e2d}')),
    ]);
    assert_eq!(effects(b"\xffA"), vec![
        on_screen(VTVerb::PutChar('\u{fffd}')),
        on_screen(VTVerb::PutChar('A')),
    ]);
    // An escape sequence that cuts a character short shows a replacement
    let mut cut = vec![on_screen(VTVerb::PutChar('\u{fffd}'))];
    cut.extend(sgr_reset());
    assert_eq!(effects(b"\xc3\x1b[m"), cut);
}

#[test]
fn input_in_pieces_gives_the_same_effects() {
    let data: &[u8] = b"ab\x1b[1;31mc\xc3\xa9\x1b[2Jd";
    let whole = effects(data);
    for cut in 0..data.len() {
        let mut parser = VTParser::new();
        let mut out = Vec::new();
        for byte in &data[..cut] {
            parser.advance(*byte, &mut out);
        }
        for byte in &data[cut..] {
            parser.advance(*byte, &mut out);
        }
        assert_eq!(out, whole);
    }
}

#[test]
fn sgr_zero_in_the_middle_resets_what_came_before() {
    let mut expect = vec![
        on_screen(VTVerb::SetRendition(VTRendition::bold(), true)),
        on_screen(VTVerb::SetFg(VTColor::Indexed(1))),
    ];
    expect.extend(sgr_reset());
    expect.push(on_screen(VTVerb::SetBg(VTColor::Indexed(4))));
    assert_eq!(effects(b"\x1b[1;31;0;44m"), expect);
}
