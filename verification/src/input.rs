//! The input encoder: what the terminal sends to the program for keys,
//! characters and report requests.

use crate::screen::Screen;
use crate::screen_model::Cursor;
use crate::vt::{VTMode, VTReport};
use vstd::prelude::*;

verus! {

/// Input Key
#[derive(Debug, Clone, Copy, PartialEq, Eq, Structural)]
pub enum Key {
    Return,
    Tab,
    Backspace,
    Up,
    Down,
    Right,
    Left,
    PageUp,
    PageDown,
    Home,
    End,
    Insert,
    Delete,
}

pub const MODIFIER_SHIFT: u8 = 0x01;
pub const MODIFIER_ALT: u8 = 0x02;
pub const MODIFIER_CONTROL: u8 = 0x04;
/// All modifiers there are.
pub const MODIFIER_ALL: u8 = 0x07;

/// A set of modifier keys, one bit each. Bits that name no modifier do not
/// count.
#[derive(Debug, Clone, Copy, PartialEq, Eq, Structural)]
pub struct Modifier {
    pub bits: u8,
}

impl Modifier {
    pub open spec fn spec_is_none(&self) -> bool {
        self.bits & MODIFIER_ALL == 0
    }

    pub open spec fn spec_contains(self, mask: u8) -> bool {
        self.bits & mask == mask
    }

    /// The modifier as an argument of an escape sequence: the digit `0` for
    /// none, else the digit of the bits plus one.
    pub open spec fn spec_escape_arg(&self) -> u8 {
        if self.spec_is_none() {
            0x30
        } else {
            ((self.bits & MODIFIER_ALL) + 0x31) as u8
        }
    }

    /// What the modifier adds to an escape sequence: nothing if there is
    /// none, else its argument, after a semicolon if asked.
    pub open spec fn spec_encoded(self, separate: bool) -> Seq<u8> {
        if self.spec_is_none() {
            Seq::empty()
        } else if separate {
            seq![0x3bu8, self.spec_escape_arg()]
        } else {
            seq![self.spec_escape_arg()]
        }
    }

    pub fn from_bits(bits: u8) -> (m: Modifier)
        ensures
            m.bits == bits,
    {
        Modifier { bits }
    }

    pub fn none() -> (m: Modifier)
        ensures
            m.bits == 0,
    {
        Modifier { bits: 0 }
    }

    pub fn shift() -> (m: Modifier)
        ensures
            m.bits == MODIFIER_SHIFT,
    {
        Modifier { bits: MODIFIER_SHIFT }
    }

    pub fn alt() -> (m: Modifier)
        ensures
            m.bits == MODIFIER_ALT,
    {
        Modifier { bits: MODIFIER_ALT }
    }

    pub fn control() -> (m: Modifier)
        ensures
            m.bits == MODIFIER_CONTROL,
    {
        Modifier { bits: MODIFIER_CONTROL }
    }

    /// The modifiers of both sets.
    pub fn union(self, other: Modifier) -> (m: Modifier)
        ensures
            m.bits == self.bits | other.bits,
    {
        Modifier { bits: self.bits | other.bits }
    }

    fn contains(self, mask: u8) -> (r: bool)
        ensures
            r == self.spec_contains(mask),
    {
        self.bits & mask == mask
    }

    #[verifier::when_used_as_spec(spec_is_none)]
    pub fn is_none(&self) -> (r: bool)
        ensures
            r == self.spec_is_none(),
    {
        self.bits & MODIFIER_ALL == 0
    }

    #[verifier::when_used_as_spec(spec_escape_arg)]
    pub fn escape_arg(&self) -> (r: u8)
        ensures
            r == self.spec_escape_arg(),
    {
        let raw = self.bits;
        let bits = raw & MODIFIER_ALL;
        assert(bits <= 7) by (bit_vector)
            requires
                bits == raw & 7,
        ;
        if bits == 0 {
            0x30
        } else {
            // +1 for VT encoding, +0x30 to make an ASCII digit
            bits + 1 + 0x30
        }
    }

    /// Appends what the modifier adds to an escape sequence, and says how
    /// many bytes that was.
    pub fn encode_into(&self, separate: bool, buffer: &mut Vec<u8>) -> (r: usize)
        ensures
            final(buffer)@ == old(buffer)@ + self.spec_encoded(separate),
            r == self.spec_encoded(separate).len(),
    {
        let arg = self.escape_arg();
        if self.is_none() {
            proof {
                assert(old(buffer)@ + Seq::<u8>::empty() =~= old(buffer)@);
            }
            return 0;
        }
        if separate {
            buffer.push(0x3b);
            buffer.push(arg);
            proof {
                assert(buffer@ =~= old(buffer)@ + seq![0x3bu8, arg]);
            }
            2
        } else {
            buffer.push(arg);
            proof {
                assert(buffer@ =~= old(buffer)@ + seq![arg]);
            }
            1
        }
    }
}

impl Default for Modifier {
    fn default() -> (m: Modifier)
        ensures
            m.bits == 0,
    {
        Modifier { bits: 0 }
    }
}

#[derive(Debug, Clone, PartialEq, Eq)]
pub enum InputData<'a> {
    Key(Key, Modifier),
    FKey(u8, Modifier),
    Char(char, Modifier),
    Str(&'a str),
    Empty,
}

/// A byte, after ESC if ALT is held.
pub open spec fn spec_esc(byte: u8, modifier: Modifier) -> Seq<u8> {
    if modifier.spec_contains(MODIFIER_ALT) {
        seq![0x1bu8, byte]
    } else {
        seq![byte]
    }
}

/// An SS3 sequence: `ESC O`, the modifier if any, the command.
pub open spec fn spec_ss3(cmd: u8, modifier: Modifier) -> Seq<u8> {
    seq![0x1bu8, 0x4fu8] + modifier.spec_encoded(false) + seq![cmd]
}

/// A CSI sequence: `ESC [`, the argument, the modifier if any, the command.
pub open spec fn spec_csi(cmd: u8, arg: Seq<u8>, modifier: Modifier) -> Seq<u8> {
    seq![0x1bu8, 0x5bu8] + arg + modifier.spec_encoded(arg.len() > 0) + seq![cmd]
}

/// The final letter of a cursor key.
pub open spec fn spec_arrow(key: Key) -> Option<u8> {
    match key {
        Key::Up => Some(0x41u8),
        Key::Down => Some(0x42u8),
        Key::Right => Some(0x43u8),
        Key::Left => Some(0x44u8),
        _ => None,
    }
}

pub open spec fn spec_key(key: Key, modifier: Modifier, mode: VTMode) -> Seq<u8> {
    if key == Key::Return && mode.has(crate::vt::MODE_NEWLINE) && modifier.spec_is_none() {
        seq![0x0du8, 0x0au8]
    } else if spec_arrow(key) is Some {
        if mode.has(crate::vt::MODE_APP_CURSOR_KEYS) {
            spec_ss3(spec_arrow(key).unwrap(), modifier)
        } else {
            spec_csi(spec_arrow(key).unwrap(), Seq::empty(), modifier)
        }
    } else {
        match key {
            Key::Return => spec_esc(0x0d, modifier),
            Key::Tab => spec_esc(0x09, modifier),
            Key::Backspace => spec_esc(0x7f, modifier),
            Key::PageUp => spec_csi(0x7e, seq![0x35u8], modifier),
            Key::PageDown => spec_csi(0x7e, seq![0x36u8], modifier),
            Key::Home => spec_csi(0x48, Seq::empty(), modifier),
            Key::End => spec_csi(0x46, Seq::empty(), modifier),
            Key::Insert => spec_csi(0x7e, seq![0x32u8], modifier),
            Key::Delete => spec_csi(0x7e, seq![0x33u8], modifier),
            _ => Seq::empty(),
        }
    }
}

/// The number that stands for a function key from F5 to F20 in its CSI
/// sequence. The table has gaps, as terminals have it.
pub open spec fn spec_fkey_code(fkey: u8) -> u8 {
    if fkey == 5 {
        15
    } else if fkey <= 10 {
        (fkey + 11) as u8
    } else if fkey <= 14 {
        (fkey + 12) as u8
    } else if fkey <= 16 {
        (fkey + 13) as u8
    } else {
        (fkey + 14) as u8
    }
}

pub open spec fn spec_fkey(fkey: u8, modifier: Modifier) -> Seq<u8> {
    if fkey == 1 {
        spec_ss3(0x50, modifier)
    } else if fkey == 2 {
        spec_ss3(0x51, modifier)
    } else if fkey == 3 {
        spec_ss3(0x52, modifier)
    } else if fkey == 4 {
        spec_ss3(0x53, modifier)
    } else if 5 <= fkey <= 20 {
        spec_csi(
            0x7e,
            seq![
                (0x30 + spec_fkey_code(fkey) / 10) as u8,
                (0x30 + spec_fkey_code(fkey) % 10) as u8,
            ],
            modifier,
        )
    } else {
        Seq::empty()
    }
}

/// An ASCII character: with CONTROL it is folded to a control character,
/// with ALT it comes after ESC.
pub open spec fn spec_ascii(ch: u8, modifier: Modifier) -> Seq<u8> {
    let byte = if modifier.spec_contains(MODIFIER_CONTROL) && 0x40 <= ch <= 0x5f {
        (ch - 0x40) as u8
    } else if modifier.spec_contains(MODIFIER_CONTROL) && 0x60 <= ch <= 0x7f {
        (ch - 0x60) as u8
    } else {
        ch
    };
    spec_esc(byte, modifier)
}

/// A character: ASCII as above, anything else as its UTF-8 bytes whatever
/// the modifiers.
pub open spec fn spec_char(ch: char, modifier: Modifier) -> Seq<u8> {
    if ch as u32 <= 0x7f {
        spec_ascii(ch as u8, modifier)
    } else {
        vstd::utf8::encode_scalar(ch as u32)
    }
}

/// The bytes that an input event sends to the program.
pub open spec fn spec_input(input: InputData, mode: VTMode) -> Seq<u8> {
    match input {
        InputData::Key(key, modifier) => spec_key(key, modifier, mode),
        InputData::FKey(num, modifier) => spec_fkey(num, modifier),
        InputData::Char(ch, modifier) => spec_char(ch, modifier),
        InputData::Str(s) => vstd::utf8::encode_utf8(s@),
        InputData::Empty => Seq::empty(),
    }
}

/// A number in decimal digits.
pub open spec fn spec_decimal(n: nat) -> Seq<u8>
    decreases n,
{
    if n < 10 {
        seq![(0x30 + n) as u8]
    } else {
        spec_decimal(n / 10).push((0x30 + n % 10) as u8)
    }
}

pub open spec fn spec_answerback() -> Seq<u8> {
    seq![0x54u8, 0x65u8, 0x65u8, 0x50u8, 0x65u8, 0x65u8]
}

/// The terminal parameters report that starts with `first`.
pub open spec fn spec_term_params(first: u8) -> Seq<u8> {
    seq![
        0x1bu8,
        0x5bu8,
        first,
        0x3bu8,
        0x31u8,
        0x3bu8,
        0x31u8,
        0x3bu8,
        0x31u8,
        0x32u8,
        0x30u8,
        0x3bu8,
        0x31u8,
        0x32u8,
        0x30u8,
        0x3bu8,
        0x31u8,
        0x3bu8,
        0x30u8,
        0x3bu8,
        0x78u8,
    ]
}

/// The answer to a report request, for a cursor as given: row and column
/// of a cursor position report count from 1.
pub open spec fn spec_report(report: VTReport, cursor: Cursor) -> Seq<u8> {
    match report {
        VTReport::AnswerBack => spec_answerback(),
        VTReport::PrimaryAttrs => seq![0x1bu8, 0x5bu8, 0x3fu8, 0x31u8, 0x3bu8, 0x32u8, 0x63u8],
        VTReport::SecondaryAttrs => seq![
            0x1bu8,
            0x3eu8,
            0x30u8,
            0x3bu8,
            0x30u8,
            0x3bu8,
            0x30u8,
            0x63u8,
        ],
        VTReport::DeviceStatus => seq![0x1bu8, 0x5bu8, 0x30u8, 0x6eu8],
        VTReport::CursorPos => seq![0x1bu8, 0x5bu8] + spec_decimal((cursor.y + 1) as nat)
            + seq![0x3bu8] + spec_decimal((cursor.x + 1) as nat) + seq![0x52u8],
        VTReport::TermParams0 => spec_term_params(0x32),
        VTReport::TermParams1 => spec_term_params(0x33),
    }
}

/// What a call that writes `bytes` to a buffer owes: if they fit, they stand
/// at the front of the buffer, the rest of it is as before, and the result
/// is their number; if not, the buffer is untouched and the result an error.
pub open spec fn written(
    before: Seq<u8>,
    after: Seq<u8>,
    bytes: Seq<u8>,
    result: Result<usize, ()>,
) -> bool {
    if bytes.len() <= before.len() {
        &&& result == Ok::<usize, ()>(bytes.len() as usize)
        &&& after == bytes + before.skip(bytes.len() as int)
    } else {
        &&& result is Err
        &&& after == before
    }
}

/// Writes `bytes` to the front of `buffer`, or nothing if they do not fit.
pub fn write_bytes(buffer: &mut [u8], bytes: &[u8]) -> (r: Result<usize, ()>)
    ensures
        written(old(buffer)@, final(buffer)@, bytes@, r),
{
    let n = bytes.len();
    if n > buffer.len() {
        return Err(());
    }
    let mut i: usize = 0;
    while i < n
        invariant
            i <= n,
            n == bytes@.len(),
            n <= buffer@.len(),
            buffer@.len() == old(buffer)@.len(),
            forall|k: int| 0 <= k < i ==> buffer@[k] == bytes@[k],
            forall|k: int| i <= k < buffer@.len() ==> buffer@[k] == old(buffer)@[k],
        decreases n - i,
    {
        buffer[i] = bytes[i];
        i += 1;
    }
    proof {
        assert(buffer@ =~= bytes@ + old(buffer)@.skip(n as int));
    }
    Ok(n)
}

/// Appends `n` in decimal digits.
fn push_decimal(n: u32, out: &mut Vec<u8>)
    ensures
        final(out)@ == old(out)@ + spec_decimal(n as nat),
    decreases n,
{
    if n < 10 {
        out.push(0x30 + n as u8);
        proof {
            assert(out@ =~= old(out)@ + spec_decimal(n as nat));
        }
    } else {
        push_decimal(n / 10, out);
        out.push(0x30 + (n % 10) as u8);
        proof {
            assert(out@ =~= old(out)@ + spec_decimal(n as nat));
        }
    }
}

/// Appends the bytes of `src` to `dst`.
fn push_all(dst: &mut Vec<u8>, src: &[u8])
    ensures
        final(dst)@ == old(dst)@ + src@,
{
    let mut i: usize = 0;
    proof {
        assert(old(dst)@ + src@.take(0) =~= old(dst)@);
    }
    while i < src.len()
        invariant
            i <= src@.len(),
            dst@ == old(dst)@ + src@.take(i as int),
        decreases src@.len() - i,
    {
        dst.push(src[i]);
        proof {
            assert(old(dst)@ + src@.take(i as int + 1) =~= (old(dst)@ + src@.take(
                i as int,
            )).push(src@[i as int]));
        }
        i += 1;
    }
    proof {
        assert(src@.take(i as int) =~= src@);
    }
}

#[derive(Debug)]
pub struct VTInput;

impl VTInput {
    fn input_esc(byte: u8, modifier: Modifier) -> (r: Vec<u8>)
        ensures
            r@ == spec_esc(byte, modifier),
    {
        let mut out: Vec<u8> = Vec::new();
        if modifier.contains(MODIFIER_ALT) {
            out.push(0x1b);
        }
        out.push(byte);
        proof {
            assert(out@ =~= spec_esc(byte, modifier));
        }
        out
    }

    fn input_ss3(cmd: u8, modifier: Modifier) -> (r: Vec<u8>)
        ensures
            r@ == spec_ss3(cmd, modifier),
    {
        let mut out: Vec<u8> = Vec::new();
        out.push(0x1b);
        out.push(0x4f);
        modifier.encode_into(false, &mut out);
        out.push(cmd);
        proof {
            assert(out@ =~= spec_ss3(cmd, modifier));
        }
        out
    }

    fn input_csi(cmd: u8, arg: &[u8], modifier: Modifier) -> (r: Vec<u8>)
        ensures
            r@ == spec_csi(cmd, arg@, modifier),
    {
        let mut out: Vec<u8> = Vec::new();
        out.push(0x1b);
        out.push(0x5b);
        push_all(&mut out, arg);
        modifier.encode_into(arg.len() > 0, &mut out);
        out.push(cmd);
        proof {
            assert(out@ =~= spec_csi(cmd, arg@, modifier));
        }
        out
    }

    /// A CSI sequence with a one-digit argument.
    fn input_csi1(cmd: u8, digit: u8, modifier: Modifier) -> (r: Vec<u8>)
        ensures
            r@ == spec_csi(cmd, seq![digit], modifier),
    {
        let arg = [digit];
        proof {
            assert(arg@ =~= seq![digit]);
        }
        Self::input_csi(cmd, arg.as_slice(), modifier)
    }

    /// A CSI sequence without an argument.
    fn input_csi0(cmd: u8, modifier: Modifier) -> (r: Vec<u8>)
        ensures
            r@ == spec_csi(cmd, Seq::empty(), modifier),
    {
        let arg: [u8; 0] = [];
        proof {
            assert(arg@ =~= Seq::<u8>::empty());
        }
        Self::input_csi(cmd, arg.as_slice(), modifier)
    }

    fn input_key(key: Key, modifier: Modifier, mode: VTMode) -> (r: Vec<u8>)
        ensures
            r@ == spec_key(key, modifier, mode),
    {
        let mode_nl = mode.contains(VTMode::newline());
        let mode_appkeys = mode.contains(VTMode::app_cursor_keys());
        match key {
            Key::Return => {
                if mode_nl && modifier.is_none() {
                    let mut out: Vec<u8> = Vec::new();
                    out.push(0x0d);
                    out.push(0x0a);
                    proof {
                        assert(out@ =~= seq![0x0du8, 0x0au8]);
                    }
                    out
                } else {
                    Self::input_esc(0x0d, modifier)
                }
            },
            Key::Tab => Self::input_esc(0x09, modifier),
            Key::Backspace => Self::input_esc(0x7f, modifier),
            Key::Up => if mode_appkeys {
                Self::input_ss3(0x41, modifier)
            } else {
                Self::input_csi0(0x41, modifier)
            },
            Key::Down => if mode_appkeys {
                Self::input_ss3(0x42, modifier)
            } else {
                Self::input_csi0(0x42, modifier)
            },
            Key::Right => if mode_appkeys {
                Self::input_ss3(0x43, modifier)
            } else {
                Self::input_csi0(0x43, modifier)
            },
            Key::Left => if mode_appkeys {
                Self::input_ss3(0x44, modifier)
            } else {
                Self::input_csi0(0x44, modifier)
            },
            Key::PageUp => Self::input_csi1(0x7e, 0x35, modifier),
            Key::PageDown => Self::input_csi1(0x7e, 0x36, modifier),
            Key::Home => Self::input_csi0(0x48, modifier),
            Key::End => Self::input_csi0(0x46, modifier),
            Key::Insert => Self::input_csi1(0x7e, 0x32, modifier),
            Key::Delete => Self::input_csi1(0x7e, 0x33, modifier),
        }
    }

    fn input_fkey(fkey: u8, modifier: Modifier) -> (r: Vec<u8>)
        ensures
            r@ == spec_fkey(fkey, modifier),
    {
        if fkey == 1 {
            Self::input_ss3(0x50, modifier)
        } else if fkey == 2 {
            Self::input_ss3(0x51, modifier)
        } else if fkey == 3 {
            Self::input_ss3(0x52, modifier)
        } else if fkey == 4 {
            Self::input_ss3(0x53, modifier)
        } else if 5 <= fkey && fkey <= 20 {
            // F5 is 15, F6 is 17 on purpose, and further gaps follow
            let code: u8 = if fkey == 5 {
                15
            } else if fkey <= 10 {
                fkey + 11
            } else if fkey <= 14 {
                fkey + 12
            } else if fkey <= 16 {
                fkey + 13
            } else {
                fkey + 14
            };
            let arg = [0x30 + code / 10, 0x30 + code % 10];
            proof {
                assert(arg@ =~= seq![(0x30 + code / 10) as u8, (0x30 + code % 10) as u8]);
            }
            Self::input_csi(0x7e, arg.as_slice(), modifier)
        } else {
            Vec::new()
        }
    }

    fn input_ascii(ch: u8, modifier: Modifier) -> (r: Vec<u8>)
        ensures
            r@ == spec_ascii(ch, modifier),
    {
        let control = modifier.contains(MODIFIER_CONTROL);
        let byte = if control && 0x40 <= ch && ch <= 0x5f {
            ch - 0x40
        } else if control && 0x60 <= ch && ch <= 0x7f {
            ch - 0x60
        } else {
            ch
        };
        Self::input_esc(byte, modifier)
    }

    fn input_char(ch: char, modifier: Modifier) -> (r: Vec<u8>)
        ensures
            r@ == spec_char(ch, modifier),
    {
        if ch as u32 <= 0x7f {
            Self::input_ascii(ch as u8, modifier)
        } else {
            let mut out: Vec<u8> = Vec::new();
            crate::sbcodec::encode_char(ch, &mut out);
            proof {
                assert(out@ =~= vstd::utf8::encode_scalar(ch as u32));
            }
            out
        }
    }

    /// Encodes an input event into `buffer`. If the buffer cannot hold the
    /// bytes, the call fails and nothing is written.
    pub fn input(&self, input: InputData, mode: VTMode, buffer: &mut [u8]) -> (r: Result<
        usize,
        (),
    >)
        ensures
            written(old(buffer)@, final(buffer)@, spec_input(input, mode), r),
    {
        match input {
            InputData::Key(key, modifier) => {
                let bytes = Self::input_key(key, modifier, mode);
                write_bytes(buffer, bytes.as_slice())
            },
            InputData::FKey(num, modifier) => {
                let bytes = Self::input_fkey(num, modifier);
                write_bytes(buffer, bytes.as_slice())
            },
            InputData::Char(ch, modifier) => {
                let bytes = Self::input_char(ch, modifier);
                write_bytes(buffer, bytes.as_slice())
            },
            InputData::Str(s) => write_bytes(buffer, s.as_bytes()),
            InputData::Empty => {
                proof {
                    assert(old(buffer)@ =~= Seq::<u8>::empty() + old(buffer)@.skip(0));
                }
                Ok(0)
            },
        }
    }

    /// The answer to a report request as bytes.
    pub fn report_bytes(cursor: (u32, u32), report: VTReport) -> (r: Vec<u8>)
        requires
            cursor.0 >= 1,
            cursor.1 >= 1,
        ensures
            r@ == spec_report(
                report,
                Cursor {
                    x: (cursor.0 - 1) as u32,
                    y: (cursor.1 - 1) as u32,
                    ..Cursor::initial()
                },
            ),
    {
        let mut out: Vec<u8> = Vec::new();
        match report {
            VTReport::AnswerBack => {
                push_all(&mut out, [0x54u8, 0x65, 0x65, 0x50, 0x65, 0x65].as_slice());
            },
            VTReport::PrimaryAttrs => {
                push_all(&mut out, [0x1bu8, 0x5b, 0x3f, 0x31, 0x3b, 0x32, 0x63].as_slice());
            },
            VTReport::SecondaryAttrs => {
                push_all(&mut out, [0x1bu8, 0x3e, 0x30, 0x3b, 0x30, 0x3b, 0x30, 0x63].as_slice());
            },
            VTReport::DeviceStatus => {
                push_all(&mut out, [0x1bu8, 0x5b, 0x30, 0x6e].as_slice());
            },
            VTReport::CursorPos => {
                out.push(0x1b);
                out.push(0x5b);
                push_decimal(cursor.1, &mut out);
                out.push(0x3b);
                push_decimal(cursor.0, &mut out);
                out.push(0x52);
            },
            VTReport::TermParams0 => {
                Self::push_term_params(0x32, &mut out);
            },
            VTReport::TermParams1 => {
                Self::push_term_params(0x33, &mut out);
            },
        }
        proof {
            let want = spec_report(
                report,
                Cursor {
                    x: (cursor.0 - 1) as u32,
                    y: (cursor.1 - 1) as u32,
                    ..Cursor::initial()
                },
            );
            assert(out@ =~= want);
        }
        out
    }

    fn push_term_params(first: u8, out: &mut Vec<u8>)
        ensures
            final(out)@ == old(out)@ + spec_term_params(first),
    {
        let bytes = [
            0x1bu8,
            0x5b,
            first,
            0x3b,
            0x31,
            0x3b,
            0x31,
            0x3b,
            0x31,
            0x32,
            0x30,
            0x3b,
            0x31,
            0x32,
            0x30,
            0x3b,
            0x31,
            0x3b,
            0x30,
            0x3b,
            0x78,
        ];
        proof {
            assert(bytes@ =~= spec_term_params(first));
        }
        push_all(out, bytes.as_slice());
    }

    /// Encodes the answer to a report request into `buffer`. If the buffer
    /// cannot hold the bytes, the call fails and nothing is written.
    pub fn report_answer(&self, screen: &Screen, report: VTReport, buffer: &mut [u8]) -> (r:
        Result<usize, ()>)
        requires
            screen.wf(),
        ensures
            written(old(buffer)@, final(buffer)@, spec_report(report, screen@.cursor), r),
    {
        let cursor = screen.cursor();
        let bytes = Self::report_bytes(cursor, report);
        write_bytes(buffer, bytes.as_slice())
    }
}

} // verus!
