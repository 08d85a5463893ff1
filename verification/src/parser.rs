//! The VT parser: a byte-driven state machine over the CSI, ESC and APC
//! families. Its meaning is the function `spec_step`, from a parser and a byte
//! to the next parser and the effects the byte has on the dispatcher.

use crate::params::{Params, ParamsModel};
use crate::utf8;
use crate::vt::{
    VTCharset, VTColor, VTDispatch, VTEffect, VTErase, VTMode, VTRendition, VTReport,
    VTScreenChoice, VTTarget, VTVerb,
};
use vstd::prelude::*;

verus! {

/// The states of the parser.
#[derive(Debug, Clone, Copy, PartialEq, Eq, Structural)]
pub enum State {
    // Text input
    Ground,
    // Escape sequences
    Escape,
    EscapeInterm,
    CsiEntry,
    CsiParam,
    CsiInterm,
    CsiIgnore,
    // Control strings
    ApcEntry,
    ApcInterm,
    ApcTp,
    CtrlStrIgnore,
}

/// The parser as a mathematical value.
pub struct ParserModel {
    pub state: State,
    pub utf8: utf8::Utf8Model,
    pub interm1: u8,
    pub interm2: u8,
    pub params: ParamsModel,
}

/// The outcome of a step: the parser afterwards and the effects, in order.
pub type Outcome = (ParserModel, Seq<VTEffect>);

impl ParserModel {
    pub open spec fn wf(self) -> bool {
        self.params.wf()
    }

    pub open spec fn with_state(self, state: State) -> ParserModel {
        ParserModel { state, ..self }
    }

    pub open spec fn initial() -> ParserModel {
        ParserModel {
            state: State::Ground,
            utf8: utf8::ground_model(),
            interm1: 0,
            interm2: 0,
            params: ParamsModel::empty(),
        }
    }
}

/// An effect on the current screen.
pub open spec fn on_screen(verb: VTVerb) -> VTEffect {
    VTEffect::Screen(VTTarget::Current, verb)
}

pub open spec fn is_control_string(state: State) -> bool {
    state == State::ApcEntry || state == State::ApcInterm || state == State::ApcTp || state
        == State::CtrlStrIgnore
}

/// Forgets the sequence in flight. A character that was cut short shows as
/// one replacement character.
pub open spec fn spec_clear(p: ParserModel) -> Outcome {
    (
        ParserModel {
            state: p.state,
            utf8: utf8::Utf8Model { state: utf8::State::Ground, wip: p.utf8.wip },
            interm1: 0,
            interm2: 0,
            params: ParamsModel::empty(),
        },
        if p.utf8.state == utf8::State::Ground {
            Seq::empty()
        } else {
            seq![on_screen(VTVerb::PutChar(utf8::REPLACE_CHAR))]
        },
    )
}

/// C0 controls that are ignored wherever they are executed.
pub open spec fn is_ignored_c0(byte: u8) -> bool {
    byte <= 4 || byte == 6 || (0x10 <= byte <= 0x17) || byte == 0x19 || (0x1c <= byte <= 0x1f)
        || byte == 0x7f
}

/// The rules that hold in every state. `None` where the byte is left to the
/// state's own handler.
pub open spec fn spec_check_anywhere(p: ParserModel, byte: u8) -> Option<Outcome> {
    if byte == 0x18 || byte == 0x1a {
        // CAN, SUB: the sequence in flight is cancelled
        Some((spec_clear(p).0.with_state(State::Ground), spec_clear(p).1))
    } else if byte == 0x1b {
        Some((p.with_state(State::Escape), Seq::empty()))
    } else if is_control_string(p.state) {
        None
    } else if is_ignored_c0(byte) {
        Some((p, Seq::empty()))
    } else if byte == 5 {
        Some((p, seq![VTEffect::Report(VTReport::AnswerBack)]))
    } else if byte == 7 {
        Some((p, seq![VTEffect::Bell]))
    } else if byte == 8 {
        Some((p, seq![on_screen(VTVerb::CursorMove(-1i32, 0))]))
    } else if byte == 9 {
        Some((p, seq![on_screen(VTVerb::Tab(1))]))
    } else if 0x0a <= byte <= 0x0c {
        Some((p, seq![on_screen(VTVerb::Newline)]))
    } else if byte == 0x0d {
        Some((p, seq![on_screen(VTVerb::CursorSet(Some(1), None))]))
    } else if byte == 0x0e {
        Some((p, seq![on_screen(VTVerb::CharsetUse(1))]))
    } else if byte == 0x0f {
        Some((p, seq![on_screen(VTVerb::CharsetUse(0))]))
    } else {
        None
    }
}

/// Text: bytes go to the UTF-8 decoder, what it emits goes to the screen.
pub open spec fn spec_ground(p: ParserModel, byte: u8) -> Outcome {
    let (next, emit) = utf8::spec_input(p.utf8, byte);
    (
        ParserModel { state: State::Ground, utf8: next, ..p },
        match emit {
            Some(Ok(ch)) => seq![on_screen(VTVerb::PutChar(ch))],
            Some(Err(_)) => seq![on_screen(VTVerb::PutChar(utf8::REPLACE_CHAR))],
            None => Seq::empty(),
        },
    )
}

/// What a single byte after ESC asks for, where it is a complete sequence.
pub open spec fn spec_escape_effect(byte: u8) -> Option<VTEffect> {
    if byte == 0x44 {
        Some(on_screen(VTVerb::Index(true)))
    } else if byte == 0x45 {
        Some(on_screen(VTVerb::NextLine))
    } else if byte == 0x48 {
        Some(on_screen(VTVerb::TabSet(true)))
    } else if byte == 0x4d {
        Some(on_screen(VTVerb::Index(false)))
    } else if byte == 0x5a {
        Some(VTEffect::Report(VTReport::PrimaryAttrs))
    } else if byte == 0x37 {
        Some(on_screen(VTVerb::CursorSave))
    } else if byte == 0x38 {
        Some(on_screen(VTVerb::CursorLoad))
    } else if byte == 0x63 {
        Some(on_screen(VTVerb::Reset))
    } else if byte == 0x6e {
        Some(on_screen(VTVerb::CharsetUse(2)))
    } else if byte == 0x6f {
        Some(on_screen(VTVerb::CharsetUse(3)))
    } else {
        None
    }
}

/// Where the byte after ESC leads.
pub open spec fn spec_escape_state(byte: u8) -> State {
    if 0x20 <= byte <= 0x2f {
        State::EscapeInterm
    } else if byte == 0x5b {
        State::CsiEntry
    } else if byte == 0x5f {
        State::ApcEntry
    } else if byte == 0x50 || byte == 0x58 || byte == 0x5d || byte == 0x5e {
        State::CtrlStrIgnore
    } else {
        State::Ground
    }
}

pub open spec fn spec_escape(p: ParserModel, byte: u8) -> Outcome {
    let (q, cut) = spec_clear(p);
    (
        ParserModel {
            state: spec_escape_state(byte),
            interm1: if 0x20 <= byte <= 0x2f {
                byte
            } else {
                q.interm1
            },
            ..q
        },
        match spec_escape_effect(byte) {
            Some(effect) => cut.push(effect),
            None => cut,
        },
    )
}

/// The character set slot that an intermediate byte selects.
pub open spec fn spec_charset_slot(interm: u8) -> Option<u32> {
    if interm == 0x28 {
        Some(0u32)
    } else if interm == 0x29 {
        Some(1u32)
    } else if interm == 0x2a {
        Some(2u32)
    } else if interm == 0x2b {
        Some(3u32)
    } else {
        None
    }
}

pub open spec fn spec_escape_interm(p: ParserModel, byte: u8) -> Outcome {
    (
        p.with_state(State::Ground),
        if p.interm1 == 0x23 && byte == 0x38 {
            seq![on_screen(VTVerb::AlignmentTest)]
        } else if spec_charset_slot(p.interm1) is Some && VTCharset::spec_decode(byte) is Some {
            seq![
                on_screen(
                    VTVerb::CharsetDesignate(
                        spec_charset_slot(p.interm1)->0,
                        VTCharset::spec_decode(byte)->0,
                    ),
                ),
            ]
        } else {
            Seq::empty()
        },
    )
}

/// ANSI modes: one effect for each parameter that names a mode.
pub open spec fn spec_modes(ints: Seq<i32>, enable: bool) -> Seq<VTEffect>
    decreases ints.len(),
{
    if ints.len() == 0 {
        Seq::empty()
    } else {
        let m = ints.last();
        let head = spec_modes(ints.drop_last(), enable);
        if m == 4 {
            head.push(VTEffect::SetMode(VTMode { bits: crate::vt::MODE_INSERT }, enable))
        } else if m == 20 {
            head.push(VTEffect::SetMode(VTMode { bits: crate::vt::MODE_NEWLINE }, enable))
        } else {
            head
        }
    }
}

/// What one DEC private mode parameter asks for.
pub open spec fn spec_mode_dec(m: i32, enable: bool) -> Seq<VTEffect> {
    let home = VTVerb::CursorSet(Some(1), Some(1));
    if m == 5 {
        seq![VTEffect::SetMode(VTMode { bits: crate::vt::MODE_REVERSE_VIDEO }, enable)]
    } else if m == 6 {
        seq![
            VTEffect::SetMode(VTMode { bits: crate::vt::MODE_ORIGIN }, enable),
            VTEffect::Screen(VTTarget::Primary, home),
            VTEffect::Screen(VTTarget::Alternate, home),
        ]
    } else if m == 20 {
        seq![VTEffect::SetMode(VTMode { bits: crate::vt::MODE_NEWLINE }, enable)]
    } else if m == 47 || m == 1047 {
        if enable {
            seq![VTEffect::SwitchScreen(VTScreenChoice::Primary)]
        } else {
            seq![VTEffect::SwitchScreen(VTScreenChoice::Alternate)]
        }
    } else if m == 1048 {
        if enable {
            seq![on_screen(VTVerb::CursorSave)]
        } else {
            seq![on_screen(VTVerb::CursorLoad)]
        }
    } else if m == 1049 {
        if enable {
            seq![
                VTEffect::Screen(VTTarget::Primary, VTVerb::CursorSave),
                VTEffect::SwitchScreen(VTScreenChoice::Alternate),
                VTEffect::Screen(VTTarget::Alternate, VTVerb::Erase(VTErase::All)),
            ]
        } else {
            seq![
                VTEffect::SwitchScreen(VTScreenChoice::Primary),
                VTEffect::Screen(VTTarget::Primary, VTVerb::CursorLoad),
            ]
        }
    } else {
        Seq::empty()
    }
}

/// DEC private modes: the effects of each parameter, in order.
pub open spec fn spec_modes_dec(ints: Seq<i32>, enable: bool) -> Seq<VTEffect>
    decreases ints.len(),
{
    if ints.len() == 0 {
        Seq::empty()
    } else {
        spec_modes_dec(ints.drop_last(), enable) + spec_mode_dec(ints.last(), enable)
    }
}

pub open spec fn in_byte(p: i32) -> bool {
    0 <= p <= 255
}

/// The colour that an SGR colour parameter `p` selects, and how many of the
/// parameters after it belong to it. `rest` holds the parameters after `p`.
pub open spec fn spec_color(p: i32, rest: Seq<i32>) -> (Result<VTColor, ()>, nat) {
    if p == 39 {
        (Ok(VTColor::DefaultFg), 0)
    } else if p == 49 {
        (Ok(VTColor::DefaultBg), 0)
    } else if 30 <= p <= 37 {
        (Ok(VTColor::Indexed((p - 30) as u8)), 0)
    } else if 40 <= p <= 47 {
        (Ok(VTColor::Indexed((p - 40) as u8)), 0)
    } else if 90 <= p <= 97 {
        (Ok(VTColor::Indexed((p - 90 + 8) as u8)), 0)
    } else if 100 <= p <= 107 {
        (Ok(VTColor::Indexed((p - 100 + 8) as u8)), 0)
    } else if p == 38 || p == 48 {
        if rest.len() < 2 {
            (Err(()), 0)
        } else if rest[0] == 5 && in_byte(rest[1]) {
            (Ok(VTColor::Indexed(rest[1] as u8)), 2)
        } else if rest.len() < 4 {
            (Err(()), 0)
        } else if rest[0] == 2 && in_byte(rest[1]) && in_byte(rest[2]) && in_byte(rest[3]) {
            (Ok(VTColor::Rgb(rest[1] as u8, rest[2] as u8, rest[3] as u8)), 4)
        } else {
            (Err(()), 0)
        }
    } else {
        (Err(()), 0)
    }
}

/// What SGR 0 asks for: every attribute that SGR can switch is switched off,
/// and both colours go back to the defaults.
pub open spec fn spec_sgr_reset() -> Seq<VTEffect> {
    seq![
        on_screen(VTVerb::SetRendition(VTRendition { bits: crate::vt::RENDITION_ALL }, false)),
        on_screen(VTVerb::SetFg(VTColor::DefaultFg)),
        on_screen(VTVerb::SetBg(VTColor::DefaultBg)),
    ]
}

/// The rendition change that an SGR parameter asks for, where it is one.
pub open spec fn spec_sgr_rendition(p: i32) -> Option<VTVerb> {
    if p == 1 {
        Some(VTVerb::SetRendition(VTRendition { bits: crate::vt::RENDITION_BOLD }, true))
    } else if p == 4 {
        Some(VTVerb::SetRendition(VTRendition { bits: crate::vt::RENDITION_UNDERLINED }, true))
    } else if p == 5 {
        Some(VTVerb::SetRendition(VTRendition { bits: crate::vt::RENDITION_BLINKING }, true))
    } else if p == 7 {
        Some(VTVerb::SetRendition(VTRendition { bits: crate::vt::RENDITION_INVERSE }, true))
    } else if p == 8 {
        Some(VTVerb::SetRendition(VTRendition { bits: crate::vt::RENDITION_INVISIBLE }, true))
    } else if p == 22 {
        Some(VTVerb::SetRendition(VTRendition { bits: crate::vt::RENDITION_BOLD }, false))
    } else if p == 24 {
        Some(VTVerb::SetRendition(VTRendition { bits: crate::vt::RENDITION_UNDERLINED }, false))
    } else if p == 25 {
        Some(VTVerb::SetRendition(VTRendition { bits: crate::vt::RENDITION_BLINKING }, false))
    } else if p == 27 {
        Some(VTVerb::SetRendition(VTRendition { bits: crate::vt::RENDITION_INVERSE }, false))
    } else if p == 28 {
        Some(VTVerb::SetRendition(VTRendition { bits: crate::vt::RENDITION_INVISIBLE }, false))
    } else {
        None
    }
}

pub open spec fn is_fg_param(p: i32) -> bool {
    (30 <= p <= 39) || (90 <= p <= 97)
}

pub open spec fn is_bg_param(p: i32) -> bool {
    (40 <= p <= 49) || (100 <= p <= 107)
}

/// SGR from parameter `from` on: renditions and colours in order, until the
/// list ends or a parameter makes no sense, which ends the whole sequence.
pub open spec fn spec_sgr_from(ints: Seq<i32>, from: int) -> Seq<VTEffect>
    decreases ints.len() - from,
{
    if from < 0 || from >= ints.len() {
        Seq::empty()
    } else {
        let p = ints[from];
        if p == 0 {
            spec_sgr_reset() + spec_sgr_from(ints, from + 1)
        } else if spec_sgr_rendition(p) is Some {
            seq![on_screen(spec_sgr_rendition(p)->0)] + spec_sgr_from(ints, from + 1)
        } else if is_fg_param(p) || is_bg_param(p) {
            let (color, used) = spec_color(p, ints.skip(from + 1));
            match color {
                Ok(c) => seq![
                    on_screen(
                        if is_fg_param(p) {
                            VTVerb::SetFg(c)
                        } else {
                            VTVerb::SetBg(c)
                        },
                    ),
                ] + spec_sgr_from(ints, from + 1 + used),
                Err(_) => Seq::empty(),
            }
        } else {
            Seq::empty()
        }
    }
}

/// Select Graphic Rendition. Without parameters it resets the style.
pub open spec fn spec_sgr(ints: Seq<i32>) -> Seq<VTEffect> {
    if ints.len() == 0 {
        spec_sgr_reset()
    } else {
        spec_sgr_from(ints, 0)
    }
}

pub open spec fn spec_csi_erase(params: ParamsModel, screen: bool) -> Seq<VTEffect> {
    let kind = params.get(0, 0);
    if kind == 0 {
        seq![
            on_screen(
                VTVerb::Erase(
                    if screen {
                        VTErase::Below
                    } else {
                        VTErase::LineRight
                    },
                ),
            ),
        ]
    } else if kind == 1 {
        seq![
            on_screen(
                VTVerb::Erase(
                    if screen {
                        VTErase::Above
                    } else {
                        VTErase::LineLeft
                    },
                ),
            ),
        ]
    } else if kind == 2 {
        seq![
            on_screen(
                VTVerb::Erase(
                    if screen {
                        VTErase::All
                    } else {
                        VTErase::Line
                    },
                ),
            ),
        ]
    } else {
        Seq::empty()
    }
}

pub open spec fn spec_csi_tab(params: ParamsModel) -> Seq<VTEffect> {
    let kind = params.get(0, 0);
    if kind == 0 {
        seq![on_screen(VTVerb::TabSet(false))]
    } else if kind == 3 {
        seq![on_screen(VTVerb::TabsClear)]
    } else {
        Seq::empty()
    }
}

pub open spec fn spec_csi_dsr(params: ParamsModel) -> Seq<VTEffect> {
    let kind = params.get(0, 0);
    if kind == 5 {
        seq![VTEffect::Report(VTReport::DeviceStatus)]
    } else if kind == 6 {
        seq![VTEffect::Report(VTReport::CursorPos)]
    } else {
        Seq::empty()
    }
}

pub open spec fn spec_csi_tparm(params: ParamsModel) -> Seq<VTEffect> {
    let kind = params.get(0, 0);
    if kind == 0 {
        seq![VTEffect::Report(VTReport::TermParams0)]
    } else if kind == 1 {
        seq![VTEffect::Report(VTReport::TermParams1)]
    } else {
        Seq::empty()
    }
}

/// The screen verb of a CSI sequence without intermediates whose final byte
/// takes its arguments straight from the parameters.
pub open spec fn spec_csi_verb(params: ParamsModel, byte: u8) -> Option<VTVerb> {
    let n = params.get(0, 1);
    if byte == 0x40 {
        Some(VTVerb::PutChars(n as u32))
    } else if byte == 0x41 {
        Some(VTVerb::CursorMove(0, (-n) as i32))
    } else if byte == 0x42 {
        Some(VTVerb::CursorMove(0, n))
    } else if byte == 0x43 {
        Some(VTVerb::CursorMove(n, 0))
    } else if byte == 0x44 {
        Some(VTVerb::CursorMove((-n) as i32, 0))
    } else if byte == 0x47 {
        Some(VTVerb::CursorSet(Some(n as u32), None))
    } else if byte == 0x66 || byte == 0x48 {
        Some(VTVerb::CursorSet(Some(params.get(1, 1) as u32), Some(n as u32)))
    } else if byte == 0x49 {
        Some(VTVerb::Tab(n))
    } else if byte == 0x4c {
        Some(VTVerb::ScrollAtCursor((-n) as i32))
    } else if byte == 0x4d {
        Some(VTVerb::ScrollAtCursor(n))
    } else if byte == 0x50 || byte == 0x58 {
        Some(VTVerb::Erase(VTErase::NumChars(n as u32)))
    } else if byte == 0x53 {
        Some(VTVerb::Scroll(n))
    } else if byte == 0x54 {
        Some(VTVerb::Scroll((-n) as i32))
    } else if byte == 0x5a {
        Some(VTVerb::Tab((-n) as i32))
    } else if byte == 0x64 {
        Some(VTVerb::CursorSet(None, Some(n as u32)))
    } else if byte == 0x72 {
        Some(VTVerb::SetScrollRegion(params.get(0, 0) as u32, params.get(1, 0) as u32))
    } else if byte == 0x73 {
        Some(VTVerb::CursorSave)
    } else if byte == 0x75 {
        Some(VTVerb::CursorLoad)
    } else {
        None
    }
}

/// The effects of a complete CSI sequence with final byte `byte`.
pub open spec fn spec_csi_effects(p: ParserModel, byte: u8) -> Seq<VTEffect> {
    if p.interm1 != 0 {
        if p.interm1 == 0x3e && byte == 0x63 {
            seq![VTEffect::Report(VTReport::SecondaryAttrs)]
        } else if p.interm1 == 0x3f && byte == 0x68 {
            spec_modes_dec(p.params.ints, true)
        } else if p.interm1 == 0x3f && byte == 0x6c {
            spec_modes_dec(p.params.ints, false)
        } else {
            Seq::empty()
        }
    } else if p.interm2 != 0 {
        Seq::empty()
    } else if byte == 0x4a {
        spec_csi_erase(p.params, true)
    } else if byte == 0x4b {
        spec_csi_erase(p.params, false)
    } else if byte == 0x67 {
        spec_csi_tab(p.params)
    } else if byte == 0x68 {
        spec_modes(p.params.ints, true)
    } else if byte == 0x6c {
        spec_modes(p.params.ints, false)
    } else if byte == 0x6d {
        spec_sgr(p.params.ints)
    } else if byte == 0x6e {
        spec_csi_dsr(p.params)
    } else if byte == 0x78 {
        spec_csi_tparm(p.params)
    } else if byte == 0x63 {
        seq![VTEffect::Report(VTReport::PrimaryAttrs)]
    } else {
        match spec_csi_verb(p.params, byte) {
            Some(verb) => seq![on_screen(verb)],
            None => Seq::empty(),
        }
    }
}

pub open spec fn spec_csi_dispatch(p: ParserModel, byte: u8) -> Outcome {
    (p.with_state(State::Ground), spec_csi_effects(p, byte))
}

pub open spec fn is_digit(byte: u8) -> bool {
    0x30 <= byte <= 0x39
}

pub open spec fn is_final(byte: u8) -> bool {
    0x40 <= byte <= 0x7e
}

pub open spec fn spec_csi_entry(p: ParserModel, byte: u8) -> Outcome {
    let (q, cut) = spec_clear(p);
    if 0x20 <= byte <= 0x2f {
        (ParserModel { state: State::CsiInterm, interm2: byte, ..q }, cut)
    } else if 0x3c <= byte <= 0x3f {
        (ParserModel { state: State::CsiParam, interm1: byte, ..q }, cut)
    } else if is_digit(byte) {
        (
            ParserModel {
                state: State::CsiParam,
                params: q.params.push_digit((byte - 0x30) as u8),
                ..q
            },
            cut,
        )
    } else if byte == 0x3b {
        (ParserModel { state: State::CsiParam, params: q.params.next(), ..q }, cut)
    } else if byte == 0x3a {
        (q.with_state(State::CsiIgnore), cut)
    } else if is_final(byte) {
        (q.with_state(State::Ground), cut + spec_csi_effects(q, byte))
    } else {
        (q.with_state(State::Ground), cut)
    }
}

pub open spec fn spec_csi_param(p: ParserModel, byte: u8) -> Outcome {
    if 0x20 <= byte <= 0x2f {
        (ParserModel { state: State::CsiInterm, interm2: byte, ..p }, Seq::empty())
    } else if is_digit(byte) {
        (
            ParserModel {
                state: State::CsiParam,
                params: p.params.push_digit((byte - 0x30) as u8),
                ..p
            },
            Seq::empty(),
        )
    } else if byte == 0x3b {
        (ParserModel { state: State::CsiParam, params: p.params.next(), ..p }, Seq::empty())
    } else if byte == 0x3a || (0x3c <= byte <= 0x3f) {
        (p.with_state(State::CsiIgnore), Seq::empty())
    } else if is_final(byte) {
        spec_csi_dispatch(p, byte)
    } else {
        (p.with_state(State::CsiParam), Seq::empty())
    }
}

pub open spec fn spec_csi_interm(p: ParserModel, byte: u8) -> Outcome {
    if 0x30 <= byte <= 0x3f {
        (p.with_state(State::CsiIgnore), Seq::empty())
    } else if is_final(byte) {
        spec_csi_dispatch(p, byte)
    } else {
        (p.with_state(State::Ground), Seq::empty())
    }
}

pub open spec fn spec_csi_ignore(p: ParserModel, byte: u8) -> Outcome {
    if 0x20 <= byte <= 0x3f {
        (p.with_state(State::CsiIgnore), Seq::empty())
    } else {
        (p.with_state(State::Ground), Seq::empty())
    }
}

pub open spec fn spec_apc_entry(p: ParserModel, byte: u8) -> Outcome {
    let (q, cut) = spec_clear(p);
    if byte == 0x54 {
        (q.with_state(State::ApcInterm), cut)
    } else {
        (q.with_state(State::CtrlStrIgnore), cut)
    }
}

pub open spec fn spec_apc_interm(p: ParserModel, byte: u8) -> Outcome {
    if byte == 0x50 {
        (p.with_state(State::ApcTp), Seq::empty())
    } else {
        (p.with_state(State::CtrlStrIgnore), Seq::empty())
    }
}

/// One byte through the state machine.
pub open spec fn spec_step(p: ParserModel, byte: u8) -> Outcome {
    match spec_check_anywhere(p, byte) {
        Some(outcome) => outcome,
        None => match p.state {
            State::Ground => spec_ground(p, byte),
            State::Escape => spec_escape(p, byte),
            State::EscapeInterm => spec_escape_interm(p, byte),
            State::CsiEntry => spec_csi_entry(p, byte),
            State::CsiParam => spec_csi_param(p, byte),
            State::CsiInterm => spec_csi_interm(p, byte),
            State::CsiIgnore => spec_csi_ignore(p, byte),
            State::ApcEntry => spec_apc_entry(p, byte),
            State::ApcInterm => spec_apc_interm(p, byte),
            State::ApcTp => (p, Seq::empty()),
            State::CtrlStrIgnore => (p, Seq::empty()),
        },
    }
}

/// A whole input through the state machine: the parser afterwards and all
/// effects in the order of the bytes that caused them.
pub open spec fn spec_run(p: ParserModel, bytes: Seq<u8>) -> Outcome
    decreases bytes.len(),
{
    if bytes.len() == 0 {
        (p, Seq::empty())
    } else {
        let (q, head) = spec_step(p, bytes[0]);
        let (r, tail) = spec_run(q, bytes.drop_first());
        (r, head + tail)
    }
}

impl VTColor {
    /// Reads the colour that the SGR parameter `p` selects. The parameters
    /// that may belong to it start at index `next` of `params`. On success
    /// the second number says how many of them did.
    pub fn parse(p: i32, params: &Params, next: usize) -> (r: Result<(VTColor, usize), ()>)
        requires
            next <= params@.ints.len(),
        ensures
            match r {
                Ok((color, used)) => {
                    &&& spec_color(p, params@.ints.skip(next as int)) == (
                        Ok::<VTColor, ()>(color),
                        used as nat,
                    )
                    &&& next + used <= params@.ints.len()
                },
                Err(_) => spec_color(p, params@.ints.skip(next as int)).0 is Err,
            },
    {
        if p == 39 {
            return Ok((VTColor::DefaultFg, 0));
        } else if p == 49 {
            return Ok((VTColor::DefaultBg, 0));
        } else if 30 <= p && p <= 37 {
            return Ok((VTColor::Indexed((p - 30) as u8), 0));
        } else if 40 <= p && p <= 47 {
            return Ok((VTColor::Indexed((p - 40) as u8), 0));
        } else if 90 <= p && p <= 97 {
            return Ok((VTColor::Indexed((p - 90 + 8) as u8), 0));
        } else if 100 <= p && p <= 107 {
            return Ok((VTColor::Indexed((p - 100 + 8) as u8), 0));
        } else if !(p == 38 || p == 48) {
            return Err(());
        }
        // Extended palettes need at least two more parameters
        let len = params.len();
        if len - next < 2 {
            return Err(());
        }
        let op = params.at(next);
        let p1 = params.at(next + 1);
        if op == 5 && 0 <= p1 && p1 <= 255 {
            return Ok((VTColor::Indexed(p1 as u8), 2));
        }
        // The RGB format needs two more
        if len - next < 4 {
            return Err(());
        }
        let p2 = params.at(next + 2);
        let p3 = params.at(next + 3);
        if op == 2 && 0 <= p1 && p1 <= 255 && 0 <= p2 && p2 <= 255 && 0 <= p3 && p3 <= 255 {
            Ok((VTColor::Rgb(p1 as u8, p2 as u8, p3 as u8), 4))
        } else {
            Err(())
        }
    }
}

/// The rendition change that an SGR parameter asks for, where it is one.
fn sgr_rendition(p: i32) -> (r: Option<VTVerb>)
    ensures
        r == spec_sgr_rendition(p),
{
    if p == 1 {
        Some(VTVerb::SetRendition(VTRendition::bold(), true))
    } else if p == 4 {
        Some(VTVerb::SetRendition(VTRendition::underlined(), true))
    } else if p == 5 {
        Some(VTVerb::SetRendition(VTRendition::blinking(), true))
    } else if p == 7 {
        Some(VTVerb::SetRendition(VTRendition::inverse(), true))
    } else if p == 8 {
        Some(VTVerb::SetRendition(VTRendition::invisible(), true))
    } else if p == 22 {
        Some(VTVerb::SetRendition(VTRendition::bold(), false))
    } else if p == 24 {
        Some(VTVerb::SetRendition(VTRendition::underlined(), false))
    } else if p == 25 {
        Some(VTVerb::SetRendition(VTRendition::blinking(), false))
    } else if p == 27 {
        Some(VTVerb::SetRendition(VTRendition::inverse(), false))
    } else if p == 28 {
        Some(VTVerb::SetRendition(VTRendition::invisible(), false))
    } else {
        None
    }
}

/// Emits what SGR 0 asks for.
fn sgr_reset(out: &mut Vec<VTEffect>)
    ensures
        final(out)@ == old(out)@ + spec_sgr_reset(),
{
    out.push(VTEffect::Screen(VTTarget::Current, VTVerb::SetRendition(VTRendition::all(), false)));
    out.push(VTEffect::Screen(VTTarget::Current, VTVerb::SetFg(VTColor::DefaultFg)));
    out.push(VTEffect::Screen(VTTarget::Current, VTVerb::SetBg(VTColor::DefaultBg)));
    proof {
        assert(out@ =~= old(out)@ + spec_sgr_reset());
    }
}

fn emit(out: &mut Vec<VTEffect>, effect: VTEffect)
    ensures
        final(out)@ == old(out)@ + seq![effect],
        final(out)@ == old(out)@.push(effect),
{
    out.push(effect);
    proof {
        assert(old(out)@.push(effect) =~= old(out)@ + seq![effect]);
    }
}

fn emit_verb(out: &mut Vec<VTEffect>, verb: VTVerb)
    ensures
        final(out)@ == old(out)@ + seq![on_screen(verb)],
        final(out)@ == old(out)@.push(on_screen(verb)),
{
    emit(out, VTEffect::Screen(VTTarget::Current, verb));
}

/// The VT parser: feed it bytes, it tells a dispatcher what they mean.
#[derive(Debug)]
pub struct VTParser {
    state: State,
    utf8: utf8::Parser,
    interm1: u8,
    interm2: u8,
    params: Params,
}

impl View for VTParser {
    type V = ParserModel;

    closed spec fn view(&self) -> ParserModel {
        ParserModel {
            state: self.state,
            utf8: self.utf8@,
            interm1: self.interm1,
            interm2: self.interm2,
            params: self.params@,
        }
    }
}

impl VTParser {
    /// The parser's invariant: at most 17 parameters, none of them negative.
    pub open spec fn wf(&self) -> bool {
        self@.wf()
    }

    pub fn new() -> (p: VTParser)
        ensures
            p@ == ParserModel::initial(),
            p.wf(),
    {
        VTParser {
            state: State::Ground,
            utf8: utf8::Parser::new(),
            interm1: 0,
            interm2: 0,
            params: Params::new(),
        }
    }

    /// Forgets the sequence in flight. The result is an error if a character
    /// was cut short.
    fn clear(&mut self) -> (r: Result<(), ()>)
        ensures
            final(self)@ == spec_clear(old(self)@).0,
            r is Ok <==> spec_clear(old(self)@).1.len() == 0,
            final(self).wf(),
    {
        self.params.clear();
        self.interm1 = 0;
        self.interm2 = 0;
        self.utf8.reset()
    }

    /// Forgets the sequence in flight and shows a character that was cut short
    /// as a replacement character.
    fn clear_pending(&mut self, out: &mut Vec<VTEffect>)
        ensures
            final(self)@ == spec_clear(old(self)@).0,
            final(out)@ == old(out)@ + spec_clear(old(self)@).1,
            final(self).wf(),
    {
        if self.clear().is_err() {
            emit_verb(out, VTVerb::PutChar(utf8::REPLACE_CHAR));
        } else {
            proof {
                assert(old(out)@ + spec_clear(old(self)@).1 =~= old(out)@);
            }
        }
    }

    /// Checks for the bytes that act in every state. The result says whether
    /// the byte was one of them.
    fn check_anywhere(&mut self, byte: u8, out: &mut Vec<VTEffect>) -> (r: bool)
        requires
            old(self).wf(),
        ensures
            r == spec_check_anywhere(old(self)@, byte) is Some,
            r ==> final(self)@ == spec_check_anywhere(old(self)@, byte).unwrap().0,
            r ==> final(out)@ == old(out)@ + spec_check_anywhere(old(self)@, byte).unwrap().1,
            !r ==> final(self)@ == old(self)@ && final(out)@ == old(out)@,
            final(self).wf(),
    {
        // These work anywhere and interrupt any escape sequence
        if byte == 0x18 || byte == 0x1a {
            self.clear_pending(out);
            self.state = State::Ground;
            return true;
        } else if byte == 0x1b {
            self.state = State::Escape;
            proof {
                assert(old(out)@ + Seq::<VTEffect>::empty() =~= old(out)@);
            }
            return true;
        }
        // The rest of C0 is executed inside escape sequences and CSIs, but
        // not inside control strings
        match self.state {
            State::ApcEntry | State::ApcInterm | State::ApcTp | State::CtrlStrIgnore => {
                return false;
            },
            _ => {},
        }
        if byte <= 4 || byte == 6 || (0x10 <= byte && byte <= 0x17) || byte == 0x19 || (0x1c
            <= byte && byte <= 0x1f) || byte == 0x7f {
            // NUL, SOH, STX, ETX, EOT, ACK, DLE, DC1-4, NAK, SYN, ETB, EM, FS, GS, RS, US, DEL
            proof {
                assert(old(out)@ + Seq::<VTEffect>::empty() =~= old(out)@);
            }
        } else if byte == 5 {
            emit(out, VTEffect::Report(VTReport::AnswerBack));
        } else if byte == 7 {
            emit(out, VTEffect::Bell);
        } else if byte == 8 {
            emit_verb(out, VTVerb::CursorMove(-1, 0));
        } else if byte == 9 {
            emit_verb(out, VTVerb::Tab(1));
        } else if 0x0a <= byte && byte <= 0x0c {
            emit_verb(out, VTVerb::Newline);
        } else if byte == 0x0d {
            emit_verb(out, VTVerb::CursorSet(Some(1), None));
        } else if byte == 0x0e {
            emit_verb(out, VTVerb::CharsetUse(1));
        } else if byte == 0x0f {
            emit_verb(out, VTVerb::CharsetUse(0));
        } else {
            return false;
        }
        true
    }

    fn ground(&mut self, byte: u8, out: &mut Vec<VTEffect>)
        requires
            old(self).wf(),
        ensures
            final(self)@ == spec_ground(old(self)@, byte).0,
            final(out)@ == old(out)@ + spec_ground(old(self)@, byte).1,
            final(self).wf(),
    {
        self.state = State::Ground;
        match self.utf8.input(byte) {
            Some(Ok(ch)) => emit_verb(out, VTVerb::PutChar(ch)),
            Some(Err(_)) => emit_verb(out, VTVerb::PutChar(utf8::REPLACE_CHAR)),
            None => {
                proof {
                    assert(old(out)@ + Seq::<VTEffect>::empty() =~= old(out)@);
                }
            },
        }
    }

    fn escape(&mut self, byte: u8, out: &mut Vec<VTEffect>)
        requires
            old(self).wf(),
        ensures
            final(self)@ == spec_escape(old(self)@, byte).0,
            final(out)@ == old(out)@ + spec_escape(old(self)@, byte).1,
            final(self).wf(),
    {
        self.clear_pending(out);
        let ghost cut = spec_clear(old(self)@).1;
        self.state = State::Ground;
        if 0x20 <= byte && byte <= 0x2f {
            self.interm1 = byte;
            self.state = State::EscapeInterm;
        } else if byte == 0x44 {
            emit_verb(out, VTVerb::Index(true));
        } else if byte == 0x45 {
            emit_verb(out, VTVerb::NextLine);
        } else if byte == 0x48 {
            emit_verb(out, VTVerb::TabSet(true));
        } else if byte == 0x4d {
            emit_verb(out, VTVerb::Index(false));
        } else if byte == 0x5a {
            emit(out, VTEffect::Report(VTReport::PrimaryAttrs));
        } else if byte == 0x37 {
            emit_verb(out, VTVerb::CursorSave);
        } else if byte == 0x38 {
            emit_verb(out, VTVerb::CursorLoad);
        } else if byte == 0x63 {
            emit_verb(out, VTVerb::Reset);
        } else if byte == 0x6e {
            emit_verb(out, VTVerb::CharsetUse(2));
        } else if byte == 0x6f {
            emit_verb(out, VTVerb::CharsetUse(3));
        } else if byte == 0x5b {
            self.state = State::CsiEntry;
        } else if byte == 0x5f {
            self.state = State::ApcEntry;
        } else if byte == 0x50 || byte == 0x58 || byte == 0x5d || byte == 0x5e {
            self.state = State::CtrlStrIgnore;
        }
        // Other sequences are ignored, some on purpose, some for want of support

        proof {
            match spec_escape_effect(byte) {
                Some(effect) => {
                    assert(old(out)@ + cut.push(effect) =~= (old(out)@ + cut).push(effect));
                },
                None => {},
            }
        }
    }

    fn charset_designate(slot: u32, param: u8, out: &mut Vec<VTEffect>)
        ensures
            final(out)@ == old(out)@ + (match VTCharset::spec_decode(param) {
                Some(charset) => seq![on_screen(VTVerb::CharsetDesignate(slot, charset))],
                None => Seq::empty(),
            }),
    {
        match VTCharset::decode(param) {
            Some(charset) => emit_verb(out, VTVerb::CharsetDesignate(slot, charset)),
            None => {
                proof {
                    assert(old(out)@ + Seq::<VTEffect>::empty() =~= old(out)@);
                }
            },
        }
    }

    fn escape_interm(&mut self, byte: u8, out: &mut Vec<VTEffect>)
        requires
            old(self).wf(),
        ensures
            final(self)@ == spec_escape_interm(old(self)@, byte).0,
            final(out)@ == old(out)@ + spec_escape_interm(old(self)@, byte).1,
            final(self).wf(),
    {
        let interm = self.interm1;
        self.state = State::Ground;
        if interm == 0x23 && byte == 0x38 {
            emit_verb(out, VTVerb::AlignmentTest);
        } else if interm == 0x28 {
            Self::charset_designate(0, byte, out);
        } else if interm == 0x29 {
            Self::charset_designate(1, byte, out);
        } else if interm == 0x2a {
            Self::charset_designate(2, byte, out);
        } else if interm == 0x2b {
            Self::charset_designate(3, byte, out);
        } else {
            proof {
                assert(old(out)@ + Seq::<VTEffect>::empty() =~= old(out)@);
            }
        }
    }

    fn csi_modes(&self, enable: bool, out: &mut Vec<VTEffect>)
        ensures
            final(out)@ == old(out)@ + spec_modes(self@.params.ints, enable),
    {
        let n = self.params.len();
        let mut i: usize = 0;
        proof {
            assert(self@.params.ints.take(0) =~= Seq::<i32>::empty());
            assert(old(out)@ + Seq::<VTEffect>::empty() =~= old(out)@);
        }
        while i < n
            invariant
                i <= n,
                n == self@.params.ints.len(),
                out@ == old(out)@ + spec_modes(self@.params.ints.take(i as int), enable),
            decreases n - i,
        {
            let ghost ints = self@.params.ints;
            let ghost head = spec_modes(ints.take(i as int), enable);
            proof {
                assert(ints.take(i as int + 1).drop_last() =~= ints.take(i as int));
                assert(ints.take(i as int + 1).last() == ints[i as int]);
            }
            let m = self.params.at(i);
            if m == 4 {
                emit(out, VTEffect::SetMode(VTMode::insert_mode(), enable));
                proof {
                    let e = VTEffect::SetMode(VTMode { bits: crate::vt::MODE_INSERT }, enable);
                    assert((old(out)@ + head).push(e) =~= old(out)@ + head.push(e));
                }
            } else if m == 20 {
                emit(out, VTEffect::SetMode(VTMode::newline(), enable));
                proof {
                    let e = VTEffect::SetMode(VTMode { bits: crate::vt::MODE_NEWLINE }, enable);
                    assert((old(out)@ + head).push(e) =~= old(out)@ + head.push(e));
                }
            }
            i += 1;
        }
        proof {
            assert(self@.params.ints.take(n as int) =~= self@.params.ints);
        }
    }

    /// The effects of one DEC private mode parameter.
    fn csi_mode_dec(m: i32, enable: bool, out: &mut Vec<VTEffect>)
        ensures
            final(out)@ == old(out)@ + spec_mode_dec(m, enable),
    {
        let ghost before = out@;
        if m == 5 {
            emit(out, VTEffect::SetMode(VTMode::reverse_video(), enable));
        } else if m == 6 {
            emit(out, VTEffect::SetMode(VTMode::origin(), enable));
            emit(out, VTEffect::Screen(VTTarget::Primary, VTVerb::CursorSet(Some(1), Some(1))));
            emit(out, VTEffect::Screen(VTTarget::Alternate, VTVerb::CursorSet(Some(1), Some(1))));
        } else if m == 20 {
            emit(out, VTEffect::SetMode(VTMode::newline(), enable));
        } else if m == 47 || m == 1047 {
            if enable {
                emit(out, VTEffect::SwitchScreen(VTScreenChoice::Primary));
            } else {
                emit(out, VTEffect::SwitchScreen(VTScreenChoice::Alternate));
            }
        } else if m == 1048 {
            if enable {
                emit_verb(out, VTVerb::CursorSave);
            } else {
                emit_verb(out, VTVerb::CursorLoad);
            }
        } else if m == 1049 {
            if enable {
                emit(out, VTEffect::Screen(VTTarget::Primary, VTVerb::CursorSave));
                emit(out, VTEffect::SwitchScreen(VTScreenChoice::Alternate));
                emit(out, VTEffect::Screen(VTTarget::Alternate, VTVerb::Erase(VTErase::All)));
            } else {
                emit(out, VTEffect::SwitchScreen(VTScreenChoice::Primary));
                emit(out, VTEffect::Screen(VTTarget::Primary, VTVerb::CursorLoad));
            }
        }
        proof {
            assert(out@ =~= before + spec_mode_dec(m, enable));
        }
    }

    fn csi_modes_dec(&self, enable: bool, out: &mut Vec<VTEffect>)
        ensures
            final(out)@ == old(out)@ + spec_modes_dec(self@.params.ints, enable),
    {
        let n = self.params.len();
        let mut i: usize = 0;
        proof {
            assert(self@.params.ints.take(0) =~= Seq::<i32>::empty());
            assert(old(out)@ + Seq::<VTEffect>::empty() =~= old(out)@);
        }
        while i < n
            invariant
                i <= n,
                n == self@.params.ints.len(),
                out@ == old(out)@ + spec_modes_dec(self@.params.ints.take(i as int), enable),
            decreases n - i,
        {
            let ghost ints = self@.params.ints;
            let ghost head = spec_modes_dec(ints.take(i as int), enable);
            proof {
                assert(ints.take(i as int + 1).drop_last() =~= ints.take(i as int));
                assert(ints.take(i as int + 1).last() == ints[i as int]);
            }
            let m = self.params.at(i);
            Self::csi_mode_dec(m, enable, out);
            proof {
                assert((old(out)@ + head) + spec_mode_dec(m, enable) =~= old(out)@ + (head
                    + spec_mode_dec(m, enable)));
            }
            i += 1;
        }
        proof {
            assert(self@.params.ints.take(n as int) =~= self@.params.ints);
        }
    }

    /// Character rendition setting.
    fn csi_sgr(&self, out: &mut Vec<VTEffect>)
        ensures
            final(out)@ == old(out)@ + spec_sgr(self@.params.ints),
    {
        let n = self.params.len();
        if n == 0 {
            sgr_reset(out);
            return ;
        }
        let ghost ints = self@.params.ints;
        let mut i: usize = 0;
        while i < n
            invariant
                i <= n,
                n == ints.len(),
                ints == self@.params.ints,
                old(out)@ + spec_sgr_from(ints, 0) == out@ + spec_sgr_from(ints, i as int),
            decreases n - i,
        {
            let ghost before = out@;
            let p = self.params.at(i);
            if p == 0 {
                sgr_reset(out);
                proof {
                    let rest = spec_sgr_from(ints, i as int + 1);
                    assert(before + (spec_sgr_reset() + rest) =~= out@ + rest);
                }
                i += 1;
                continue ;
            }
            match sgr_rendition(p) {
                Some(verb) => {
                    emit_verb(out, verb);
                    proof {
                        let rest = spec_sgr_from(ints, i as int + 1);
                        assert(before + (seq![on_screen(verb)] + rest) =~= out@ + rest);
                    }
                    i += 1;
                },
                None => {
                    let fg = (30 <= p && p <= 39) || (90 <= p && p <= 97);
                    let bg = (40 <= p && p <= 49) || (100 <= p && p <= 107);
                    if !(fg || bg) {
                        // Bail, so as not to interpret parameters that may be bogus
                        proof {
                            assert(before + Seq::<VTEffect>::empty() =~= before);
                        }
                        return ;
                    }
                    match VTColor::parse(p, &self.params, i + 1) {
                        Ok((color, used)) => {
                            let verb = if fg {
                                VTVerb::SetFg(color)
                            } else {
                                VTVerb::SetBg(color)
                            };
                            emit_verb(out, verb);
                            proof {
                                let rest = spec_sgr_from(ints, i as int + 1 + used);
                                assert(before + (seq![on_screen(verb)] + rest) =~= out@ + rest);
                            }
                            i = i + 1 + used;
                        },
                        Err(_) => {
                            proof {
                                assert(before + Seq::<VTEffect>::empty() =~= before);
                            }
                            return ;
                        },
                    }
                },
            }
        }
        proof {
            assert(out@ + Seq::<VTEffect>::empty() =~= out@);
        }
    }

    fn csi_erase(&self, screen: bool, out: &mut Vec<VTEffect>)
        ensures
            final(out)@ == old(out)@ + spec_csi_erase(self@.params, screen),
    {
        let kind = self.params.get(0, 0);
        if kind == 0 {
            emit_verb(out, VTVerb::Erase(if screen { VTErase::Below } else { VTErase::LineRight }));
        } else if kind == 1 {
            emit_verb(out, VTVerb::Erase(if screen { VTErase::Above } else { VTErase::LineLeft }));
        } else if kind == 2 {
            emit_verb(out, VTVerb::Erase(if screen { VTErase::All } else { VTErase::Line }));
        } else {
            proof {
                assert(old(out)@ + Seq::<VTEffect>::empty() =~= old(out)@);
            }
        }
    }

    fn csi_tab(&self, out: &mut Vec<VTEffect>)
        ensures
            final(out)@ == old(out)@ + spec_csi_tab(self@.params),
    {
        let kind = self.params.get(0, 0);
        if kind == 0 {
            emit_verb(out, VTVerb::TabSet(false));
        } else if kind == 3 {
            emit_verb(out, VTVerb::TabsClear);
        } else {
            proof {
                assert(old(out)@ + Seq::<VTEffect>::empty() =~= old(out)@);
            }
        }
    }

    fn csi_dsr(&self, out: &mut Vec<VTEffect>)
        ensures
            final(out)@ == old(out)@ + spec_csi_dsr(self@.params),
    {
        let kind = self.params.get(0, 0);
        if kind == 5 {
            emit(out, VTEffect::Report(VTReport::DeviceStatus));
        } else if kind == 6 {
            emit(out, VTEffect::Report(VTReport::CursorPos));
        } else {
            proof {
                assert(old(out)@ + Seq::<VTEffect>::empty() =~= old(out)@);
            }
        }
    }

    fn csi_tparm(&self, out: &mut Vec<VTEffect>)
        ensures
            final(out)@ == old(out)@ + spec_csi_tparm(self@.params),
    {
        let kind = self.params.get(0, 0);
        if kind == 0 {
            emit(out, VTEffect::Report(VTReport::TermParams0));
        } else if kind == 1 {
            emit(out, VTEffect::Report(VTReport::TermParams1));
        } else {
            proof {
                assert(old(out)@ + Seq::<VTEffect>::empty() =~= old(out)@);
            }
        }
    }

    /// The screen verb of a final byte that takes its arguments straight
    /// from the parameters.
    fn csi_verb(&self, byte: u8) -> (r: Option<VTVerb>)
        requires
            self.wf(),
        ensures
            r == spec_csi_verb(self@.params, byte),
    {
        let n = self.params.get(0, 1);
        assert(n >= 1) by {
            if 0 < self@.params.ints.len() {
                assert(self@.params.ints[0] >= 0);
            }
        }
        if byte == 0x40 {
            Some(VTVerb::PutChars(n as u32))
        } else if byte == 0x41 {
            Some(VTVerb::CursorMove(0, -n))
        } else if byte == 0x42 {
            Some(VTVerb::CursorMove(0, n))
        } else if byte == 0x43 {
            Some(VTVerb::CursorMove(n, 0))
        } else if byte == 0x44 {
            Some(VTVerb::CursorMove(-n, 0))
        } else if byte == 0x47 {
            Some(VTVerb::CursorSet(Some(n as u32), None))
        } else if byte == 0x66 || byte == 0x48 {
            let x = self.params.get(1, 1);
            assert(x >= 1) by {
                if 1 < self@.params.ints.len() {
                    assert(self@.params.ints[1] >= 0);
                }
            }
            Some(VTVerb::CursorSet(Some(x as u32), Some(n as u32)))
        } else if byte == 0x49 {
            Some(VTVerb::Tab(n))
        } else if byte == 0x4c {
            Some(VTVerb::ScrollAtCursor(-n))
        } else if byte == 0x4d {
            Some(VTVerb::ScrollAtCursor(n))
        } else if byte == 0x50 || byte == 0x58 {
            Some(VTVerb::Erase(VTErase::NumChars(n as u32)))
        } else if byte == 0x53 {
            Some(VTVerb::Scroll(n))
        } else if byte == 0x54 {
            Some(VTVerb::Scroll(-n))
        } else if byte == 0x5a {
            Some(VTVerb::Tab(-n))
        } else if byte == 0x64 {
            Some(VTVerb::CursorSet(None, Some(n as u32)))
        } else if byte == 0x72 {
            let top = self.params.get(0, 0);
            let bottom = self.params.get(1, 0);
            assert(top >= 0 && bottom >= 0) by {
                if 0 < self@.params.ints.len() {
                    assert(self@.params.ints[0] >= 0);
                }
                if 1 < self@.params.ints.len() {
                    assert(self@.params.ints[1] >= 0);
                }
            }
            Some(VTVerb::SetScrollRegion(top as u32, bottom as u32))
        } else if byte == 0x73 {
            Some(VTVerb::CursorSave)
        } else if byte == 0x75 {
            Some(VTVerb::CursorLoad)
        } else {
            None
        }
    }

    /// A complete CSI sequence: `byte` is its final byte.
    fn csi_dispatch(&mut self, byte: u8, out: &mut Vec<VTEffect>)
        requires
            old(self).wf(),
        ensures
            final(self)@ == spec_csi_dispatch(old(self)@, byte).0,
            final(out)@ == old(out)@ + spec_csi_dispatch(old(self)@, byte).1,
            final(self).wf(),
    {
        self.state = State::Ground;
        let ghost nothing = Seq::<VTEffect>::empty();
        proof {
            assert(old(out)@ + nothing =~= old(out)@);
        }
        if self.interm1 != 0 {
            if self.interm1 == 0x3e && byte == 0x63 {
                emit(out, VTEffect::Report(VTReport::SecondaryAttrs));
            } else if self.interm1 == 0x3f && byte == 0x68 {
                self.csi_modes_dec(true, out);
            } else if self.interm1 == 0x3f && byte == 0x6c {
                self.csi_modes_dec(false, out);
            }
            return ;
        }
        if self.interm2 != 0 {
            // We support no such CSIs
            return ;
        }
        if byte == 0x4a {
            self.csi_erase(true, out);
        } else if byte == 0x4b {
            self.csi_erase(false, out);
        } else if byte == 0x67 {
            self.csi_tab(out);
        } else if byte == 0x68 {
            self.csi_modes(true, out);
        } else if byte == 0x6c {
            self.csi_modes(false, out);
        } else if byte == 0x6d {
            self.csi_sgr(out);
        } else if byte == 0x6e {
            self.csi_dsr(out);
        } else if byte == 0x78 {
            self.csi_tparm(out);
        } else if byte == 0x63 {
            emit(out, VTEffect::Report(VTReport::PrimaryAttrs));
        } else {
            match self.csi_verb(byte) {
                Some(verb) => emit_verb(out, verb),
                None => {
                    // Ignored, some on purpose, some for want of support
                },
            }
        }
    }

    fn csi_entry(&mut self, byte: u8, out: &mut Vec<VTEffect>)
        requires
            old(self).wf(),
        ensures
            final(self)@ == spec_csi_entry(old(self)@, byte).0,
            final(out)@ == old(out)@ + spec_csi_entry(old(self)@, byte).1,
            final(self).wf(),
    {
        self.clear_pending(out);
        let ghost cut = spec_clear(old(self)@).1;
        let ghost q = self@;
        if 0x20 <= byte && byte <= 0x2f {
            self.interm2 = byte;
            self.state = State::CsiInterm;
        } else if 0x3c <= byte && byte <= 0x3f {
            self.interm1 = byte;
            self.state = State::CsiParam;
        } else if 0x30 <= byte && byte <= 0x39 {
            self.params.push_digit(byte - 0x30);
            self.state = State::CsiParam;
        } else if byte == 0x3b {
            self.params.next();
            self.state = State::CsiParam;
        } else if byte == 0x3a {
            self.state = State::CsiIgnore;
        } else if 0x40 <= byte && byte <= 0x7e {
            self.csi_dispatch(byte, out);
            proof {
                assert((old(out)@ + cut) + spec_csi_effects(q, byte) =~= old(out)@ + (cut
                    + spec_csi_effects(q, byte)));
            }
        } else {
            self.state = State::Ground;
        }
    }

    fn csi_param(&mut self, byte: u8, out: &mut Vec<VTEffect>)
        requires
            old(self).wf(),
        ensures
            final(self)@ == spec_csi_param(old(self)@, byte).0,
            final(out)@ == old(out)@ + spec_csi_param(old(self)@, byte).1,
            final(self).wf(),
    {
        proof {
            assert(old(out)@ + Seq::<VTEffect>::empty() =~= old(out)@);
        }
        if 0x20 <= byte && byte <= 0x2f {
            self.interm2 = byte;
            self.state = State::CsiInterm;
        } else if 0x30 <= byte && byte <= 0x39 {
            self.params.push_digit(byte - 0x30);
            self.state = State::CsiParam;
        } else if byte == 0x3b {
            self.params.next();
            self.state = State::CsiParam;
        } else if byte == 0x3a || (0x3c <= byte && byte <= 0x3f) {
            self.state = State::CsiIgnore;
        } else if 0x40 <= byte && byte <= 0x7e {
            self.csi_dispatch(byte, out);
        } else {
            self.state = State::CsiParam;
        }
    }

    fn csi_interm(&mut self, byte: u8, out: &mut Vec<VTEffect>)
        requires
            old(self).wf(),
        ensures
            final(self)@ == spec_csi_interm(old(self)@, byte).0,
            final(out)@ == old(out)@ + spec_csi_interm(old(self)@, byte).1,
            final(self).wf(),
    {
        proof {
            assert(old(out)@ + Seq::<VTEffect>::empty() =~= old(out)@);
        }
        if 0x30 <= byte && byte <= 0x3f {
            self.state = State::CsiIgnore;
        } else if 0x40 <= byte && byte <= 0x7e {
            self.csi_dispatch(byte, out);
        } else {
            self.state = State::Ground;
        }
    }

    fn csi_ignore(&mut self, byte: u8)
        requires
            old(self).wf(),
        ensures
            final(self)@ == spec_csi_ignore(old(self)@, byte).0,
            final(self).wf(),
    {
        if 0x20 <= byte && byte <= 0x3f {
            self.state = State::CsiIgnore;
        } else {
            self.state = State::Ground;
        }
    }

    fn apc_entry(&mut self, byte: u8, out: &mut Vec<VTEffect>)
        requires
            old(self).wf(),
        ensures
            final(self)@ == spec_apc_entry(old(self)@, byte).0,
            final(out)@ == old(out)@ + spec_apc_entry(old(self)@, byte).1,
            final(self).wf(),
    {
        self.clear_pending(out);
        if byte == 0x54 {
            self.state = State::ApcInterm;
        } else {
            self.state = State::CtrlStrIgnore;
        }
    }

    fn apc_interm(&mut self, byte: u8)
        requires
            old(self).wf(),
        ensures
            final(self)@ == spec_apc_interm(old(self)@, byte).0,
            final(self).wf(),
    {
        if byte == 0x50 {
            self.state = State::ApcTp;
        } else {
            self.state = State::CtrlStrIgnore;
        }
    }

    /// Inside the provider-specific extension nothing is interpreted.
    fn apc_tp(&mut self, _byte: u8)
        ensures
            final(self)@ == old(self)@,
    {
    }

    /// All input is ignored here, except for what acts in every state.
    fn ctrl_str_ignore(&mut self, _byte: u8)
        ensures
            final(self)@ == old(self)@,
    {
    }

    /// Takes one byte through the state machine and appends to `out` the
    /// effects it has, in order.
    pub fn advance(&mut self, byte: u8, out: &mut Vec<VTEffect>)
        requires
            old(self).wf(),
        ensures
            final(self)@ == spec_step(old(self)@, byte).0,
            final(out)@ == old(out)@ + spec_step(old(self)@, byte).1,
            final(self).wf(),
    {
        if self.check_anywhere(byte, out) {
            return ;
        }
        proof {
            assert(old(out)@ + Seq::<VTEffect>::empty() =~= old(out)@);
        }
        match self.state {
            State::Ground => self.ground(byte, out),
            State::Escape => self.escape(byte, out),
            State::EscapeInterm => self.escape_interm(byte, out),
            State::CsiEntry => self.csi_entry(byte, out),
            State::CsiParam => self.csi_param(byte, out),
            State::CsiInterm => self.csi_interm(byte, out),
            State::CsiIgnore => self.csi_ignore(byte),
            State::ApcEntry => self.apc_entry(byte, out),
            State::ApcInterm => self.apc_interm(byte),
            State::ApcTp => self.apc_tp(byte),
            State::CtrlStrIgnore => self.ctrl_str_ignore(byte),
        }
    }

    /// Parses `data` and has `dispatch` perform what it means.
    ///
    /// The parser ends in the state that `spec_run` gives, and the dispatcher
    /// in the state that the effects of `spec_run`, applied in order, lead to.
    pub fn input<D: VTDispatch>(&mut self, data: &[u8], dispatch: &mut D)
        requires
            old(self).wf(),
            old(dispatch).inv(),
        ensures
            final(self).wf(),
            final(dispatch).inv(),
            final(self)@ == spec_run(old(self)@, data@).0,
            final(dispatch).model() == crate::vt::apply_effects::<D>(
                old(dispatch).model(),
                spec_run(old(self)@, data@).1,
            ),
    {
        let ghost mut done = Seq::<VTEffect>::empty();
        let mut out: Vec<VTEffect> = Vec::new();
        let mut i: usize = 0;
        proof {
            assert(data@.skip(0) =~= data@);
            assert(done + spec_run(self@, data@).1 =~= spec_run(self@, data@).1);
        }
        while i < data.len()
            invariant
                i <= data.len(),
                self.wf(),
                dispatch.inv(),
                spec_run(old(self)@, data@).0 == spec_run(self@, data@.skip(i as int)).0,
                spec_run(old(self)@, data@).1 == done + spec_run(self@, data@.skip(i as int)).1,
                dispatch.model() == crate::vt::apply_effects::<D>(old(dispatch).model(), done),
            decreases data.len() - i,
        {
            let ghost before = self@;
            proof {
                assert(data@.skip(i as int).drop_first() =~= data@.skip(i as int + 1));
            }
            out.clear();
            self.advance(data[i], &mut out);
            proof {
                assert(out@ =~= spec_step(before, data@[i as int]).1);
            }
            crate::vt::perform_effects(dispatch, &out);
            proof {
                crate::vt::lemma_apply_effects_concat::<D>(old(dispatch).model(), done, out@);
                let tail = spec_run(self@, data@.skip(i as int + 1)).1;
                assert(done + (out@ + tail) =~= (done + out@) + tail);
                done = done + out@;
            }
            i += 1;
        }
        proof {
            assert(data@.skip(i as int).len() == 0);
            assert(done + Seq::<VTEffect>::empty() =~= done);
        }
    }
}

/// A digit or a separator keeps a parameter list well-formed.
pub proof fn lemma_params_wf(params: ParamsModel, digit: u8)
    requires
        params.wf(),
        digit <= 9,
    ensures
        params.push_digit(digit).wf(),
        params.next().wf(),
{
    let pushed = params.push_digit(digit);
    assert forall|i: int| 0 <= i < pushed.ints.len() implies #[trigger] pushed.ints[i] >= 0 by {
        if i < params.ints.len() {
            assert(params.ints[i] >= 0);
        }
    }
}

/// Whatever byte arrives, the parser stays well-formed: it holds at most 17
/// parameters, none of them negative.
pub proof fn lemma_step_wf(p: ParserModel, byte: u8)
    requires
        p.wf(),
    ensures
        spec_step(p, byte).0.wf(),
{
    if is_digit(byte) {
        lemma_params_wf(p.params, (byte - 0x30) as u8);
        lemma_params_wf(ParamsModel::empty(), (byte - 0x30) as u8);
    }
    lemma_params_wf(p.params, 0);
    lemma_params_wf(ParamsModel::empty(), 0);
}

/// Whatever input arrives, the parser stays well-formed.
pub proof fn lemma_run_wf(p: ParserModel, bytes: Seq<u8>)
    requires
        p.wf(),
    ensures
        spec_run(p, bytes).0.wf(),
        spec_run(p, bytes).0.params.ints.len() <= 17,
    decreases bytes.len(),
{
    if bytes.len() > 0 {
        lemma_step_wf(p, bytes[0]);
        lemma_run_wf(spec_step(p, bytes[0]).0, bytes.drop_first());
    }
}

/// CAN and SUB cancel whatever is in flight: the parser is back in the
/// ground state with nothing gathered.
pub proof fn lemma_cancel(p: ParserModel, byte: u8)
    requires
        byte == 0x18 || byte == 0x1a,
    ensures
        spec_step(p, byte).0.state == State::Ground,
        spec_step(p, byte).0.params == ParamsModel::empty(),
        spec_step(p, byte).0.interm1 == 0,
        spec_step(p, byte).0.interm2 == 0,
        spec_step(p, byte).0.utf8.state == utf8::State::Ground,
{
}

/// Input may arrive in pieces: parsing one piece after the other is parsing
/// both at once.
pub proof fn lemma_run_concat(p: ParserModel, a: Seq<u8>, b: Seq<u8>)
    ensures
        spec_run(p, a + b).0 == spec_run(spec_run(p, a).0, b).0,
        spec_run(p, a + b).1 == spec_run(p, a).1 + spec_run(spec_run(p, a).0, b).1,
    decreases a.len(),
{
    if a.len() == 0 {
        assert(a + b =~= b);
        assert(spec_run(p, a).1 + spec_run(p, b).1 =~= spec_run(p, b).1);
    } else {
        let q = spec_step(p, a[0]).0;
        lemma_run_concat(q, a.drop_first(), b);
        assert((a + b).drop_first() =~= a.drop_first() + b);
        assert((a + b)[0] == a[0]);
        let head = spec_step(p, a[0]).1;
        let mid = spec_run(q, a.drop_first()).1;
        let tail = spec_run(spec_run(p, a).0, b).1;
        assert(head + (mid + tail) =~= (head + mid) + tail);
    }
}

/// SGR 0, written out or left out, asks for the reset of the whole style.
pub proof fn lemma_sgr_zero_is_reset()
    ensures
        spec_sgr(Seq::<i32>::empty()) == spec_sgr_reset(),
        spec_sgr(seq![0i32]) == spec_sgr_reset(),
{
    let ints = seq![0i32];
    assert(spec_sgr_from(ints, 1) =~= Seq::<VTEffect>::empty());
    assert(spec_sgr_from(ints, 0) =~= spec_sgr_reset());
}

} // verus!
