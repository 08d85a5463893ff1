//! A streaming (byte-by-byte) UTF-8 decoder.

use vstd::prelude::*;

verus! {

/// The character emitted in place of malformed input.
pub const REPLACE_CHAR: char = '\u{FFFD}';

/// Where the decoder stands between two bytes.
#[derive(Debug, Clone, Copy, PartialEq, Eq, Structural)]
pub enum State {
    /// Between characters.
    Ground,
    /// Inside a multi-byte sequence. The first number is how many continuation
    /// bytes the lead byte announced, the second how many are still to come.
    Continues(u8, u8),
}

/// The decoder as a mathematical value.
pub struct Utf8Model {
    pub state: State,
    /// The payload bits gathered so far.
    pub wip: u32,
}

/// What one byte makes the decoder say: nothing yet, a character, or an error.
pub type Emit = Option<Result<char, ()>>;

/// Specifies `char::from_u32` of the standard library: the conversion
/// succeeds exactly on Unicode scalar values, that is on every number up to
/// U+10FFFF outside the surrogate range U+D800 to U+DFFF.
pub assume_specification[ char::from_u32 ](i: u32) -> (r: Option<char>)
    ensures
        r == spec_scalar(i),
;

/// The character with code `i`, where there is one.
pub open spec fn spec_scalar(i: u32) -> Option<char> {
    if i <= 0xD7FF || (0xE000 <= i && i <= 0x10FFFF) {
        Some(i as char)
    } else {
        None
    }
}

/// Appends a character to a string, with `String::push` of the standard library.
///
/// Trusted: the string's characters afterwards are those before, then `ch`.
#[verifier::external_body]
pub(crate) fn string_push(s: &mut String, ch: char)
    ensures
        final(s)@ == old(s)@.push(ch),
{
    s.push(ch)
}

pub open spec fn is_continuation(byte: u8) -> bool {
    0x80 <= byte <= 0xbf
}

/// The decoder's step on a byte that arrives between characters.
pub open spec fn spec_ground(byte: u8) -> (Utf8Model, Emit) {
    let ground = Utf8Model { state: State::Ground, wip: 0 };
    if byte <= 0x7f {
        (ground, Some(Ok(byte as char)))
    } else if byte <= 0xbf {
        (ground, Some(Err(())))
    } else if byte <= 0xdf {
        (Utf8Model { state: State::Continues(1, 1), wip: (byte & 0x1f) as u32 }, None)
    } else if byte <= 0xef {
        (Utf8Model { state: State::Continues(2, 2), wip: (byte & 0x0f) as u32 }, None)
    } else if byte <= 0xf4 {
        (Utf8Model { state: State::Continues(3, 3), wip: (byte & 0x07) as u32 }, None)
    } else {
        (ground, Some(Err(())))
    }
}

/// The payload after one more continuation byte.
pub open spec fn spec_push_cont(wip: u32, byte: u8) -> u32 {
    (wip << 6) | (byte as u32 & 0x3f)
}

/// Whether a sequence with `orig` continuation bytes may encode `code`:
/// the shortest encoding only, and nothing above U+10FFFF.
pub open spec fn in_range_for(orig: u8, code: u32) -> bool {
    ||| (orig == 1 && 0x80 <= code <= 0x7ff)
    ||| (orig == 2 && 0x800 <= code <= 0xffff)
    ||| (orig == 3 && 0x10000 <= code <= 0x10ffff)
}

/// What a complete sequence decodes to.
pub open spec fn spec_finish(orig: u8, code: u32) -> Result<char, ()> {
    if in_range_for(orig, code) && spec_scalar(code) is Some {
        Ok(spec_scalar(code)->0)
    } else {
        Err(())
    }
}

/// The decoder's step on a byte that arrives inside a sequence. A byte that
/// is no continuation byte ends the sequence with an error and is consumed.
pub open spec fn spec_continues(wip: u32, byte: u8, orig: u8, to_go: u8) -> (Utf8Model, Emit) {
    if !is_continuation(byte) {
        (Utf8Model { state: State::Ground, wip: wip }, Some(Err(())))
    } else if to_go > 1 {
        (
            Utf8Model {
                state: State::Continues(orig, (to_go - 1) as u8),
                wip: spec_push_cont(wip, byte),
            },
            None,
        )
    } else {
        (
            Utf8Model { state: State::Ground, wip: spec_push_cont(wip, byte) },
            Some(spec_finish(orig, spec_push_cont(wip, byte))),
        )
    }
}

/// The decoder's step: the next state and what is emitted.
pub open spec fn spec_input(v: Utf8Model, byte: u8) -> (Utf8Model, Emit) {
    match v.state {
        State::Ground => spec_ground(byte),
        State::Continues(orig, to_go) => spec_continues(v.wip, byte, orig, to_go),
    }
}

/// The characters that strict decoding of `bytes` yields from state `v`, or
/// the error of the first malformed sequence. A sequence cut short by the end
/// of the input is dropped silently.
pub open spec fn spec_parse(v: Utf8Model, bytes: Seq<u8>) -> Result<Seq<char>, ()>
    decreases bytes.len(),
{
    if bytes.len() == 0 {
        Ok(Seq::empty())
    } else {
        let (next, emit) = spec_input(v, bytes[0]);
        match emit {
            Some(Err(_)) => Err(()),
            Some(Ok(ch)) => match spec_parse(next, bytes.drop_first()) {
                Ok(rest) => Ok(seq![ch] + rest),
                Err(_) => Err(()),
            },
            None => spec_parse(next, bytes.drop_first()),
        }
    }
}

/// The characters that lossy decoding of `bytes` yields from state `v`: every
/// error becomes one replacement character.
pub open spec fn spec_parse_lossy(v: Utf8Model, bytes: Seq<u8>) -> Seq<char>
    decreases bytes.len(),
{
    if bytes.len() == 0 {
        Seq::empty()
    } else {
        let (next, emit) = spec_input(v, bytes[0]);
        match emit {
            Some(Err(_)) => seq![REPLACE_CHAR] + spec_parse_lossy(next, bytes.drop_first()),
            Some(Ok(ch)) => seq![ch] + spec_parse_lossy(next, bytes.drop_first()),
            None => spec_parse_lossy(next, bytes.drop_first()),
        }
    }
}

/// `acc` put in front of a successful result.
pub open spec fn prepend(acc: Seq<char>, r: Result<Seq<char>, ()>) -> Result<Seq<char>, ()> {
    match r {
        Ok(rest) => Ok(acc + rest),
        Err(_) => Err(()),
    }
}

pub open spec fn ground_model() -> Utf8Model {
    Utf8Model { state: State::Ground, wip: 0 }
}

/// A UTF-8 streaming parser.
#[derive(Debug)]
pub struct Parser {
    state: State,
    char_wip: u32,
}

impl View for Parser {
    type V = Utf8Model;

    closed spec fn view(&self) -> Utf8Model {
        Utf8Model { state: self.state, wip: self.char_wip }
    }
}

impl Parser {
    pub fn new() -> (p: Parser)
        ensures
            p@ == ground_model(),
    {
        Parser { state: State::Ground, char_wip: 0 }
    }

    fn expect(&mut self, data: u8, conts: u8)
        ensures
            final(self)@ == (Utf8Model { state: State::Continues(conts, conts), wip: data as u32 }),
    {
        self.char_wip = data as u32;
        self.state = State::Continues(conts, conts);
    }

    fn ground(&mut self, byte: u8) -> (r: Emit)
        ensures
            (final(self)@, r) == spec_ground(byte),
    {
        self.char_wip = 0;
        self.state = State::Ground;
        if byte <= 0x7f {
            Some(Ok(byte as char))
        } else if byte <= 0xbf {
            Some(Err(()))
        } else if byte <= 0xdf {
            self.expect(byte & 0x1f, 1);
            None
        } else if byte <= 0xef {
            self.expect(byte & 0x0f, 2);
            None
        } else if byte <= 0xf4 {
            self.expect(byte & 0x07, 3);
            None
        } else {
            Some(Err(()))
        }
    }

    fn push_cont(&mut self, byte: u8)
        ensures
            final(self)@ == (Utf8Model {
                state: old(self)@.state,
                wip: spec_push_cont(old(self)@.wip, byte),
            }),
    {
        self.char_wip = (self.char_wip << 6) | (byte as u32 & 0x3f);
    }

    fn continues(&mut self, byte: u8, orig: u8, to_go: u8) -> (r: Emit)
        ensures
            (final(self)@, r) == spec_continues(old(self)@.wip, byte, orig, to_go),
    {
        if !(0x80 <= byte && byte <= 0xbf) {
            // Expected a continuation byte, got something else
            self.state = State::Ground;
            return Some(Err(()));
        }
        if to_go > 1 {
            self.push_cont(byte);
            self.state = State::Continues(orig, to_go - 1);
            None
        } else {
            // The last continuation byte: form a character out of what we have.
            self.state = State::Ground;
            self.push_cont(byte);
            let code = self.char_wip;
            let fits = (orig == 1 && 0x80 <= code && code <= 0x7ff)
                || (orig == 2 && 0x800 <= code && code <= 0xffff)
                || (orig == 3 && 0x10000 <= code && code <= 0x10ffff);
            if !fits {
                // Overlong sequences and values out of range
                return Some(Err(()));
            }
            match char::from_u32(code) {
                Some(ch) => Some(Ok(ch)),
                None => Some(Err(())),
            }
        }
    }

    /// Feeds one byte to the decoder.
    pub fn input(&mut self, byte: u8) -> (r: Emit)
        ensures
            (final(self)@, r) == spec_input(old(self)@, byte),
    {
        match self.state {
            State::Ground => self.ground(byte),
            State::Continues(orig, to_go) => self.continues(byte, orig, to_go),
        }
    }

    /// Resets the decoder. The result is an error if a character was incomplete.
    pub fn reset(&mut self) -> (r: Result<(), ()>)
        ensures
            final(self)@ == (Utf8Model { state: State::Ground, wip: old(self)@.wip }),
            r is Ok <==> old(self)@.state == State::Ground,
    {
        let prev = self.state;
        self.state = State::Ground;
        match prev {
            State::Ground => Ok(()),
            State::Continues(_, _) => Err(()),
        }
    }

    /// Decodes `bytes`, failing on the first malformed sequence.
    pub fn parse(bytes: &[u8]) -> (r: Result<String, ()>)
        ensures
            r is Ok <==> spec_parse(ground_model(), bytes@) is Ok,
            r is Ok ==> r->Ok_0@ == spec_parse(ground_model(), bytes@)->Ok_0,
    {
        let mut parser = Parser::new();
        let mut res = String::new();
        let mut i: usize = 0;
        proof {
            assert(bytes@.skip(0) =~= bytes@);
            match spec_parse(ground_model(), bytes@) {
                Ok(rest) => {
                    assert(res@ + rest =~= rest);
                },
                Err(e) => {
                    assert(e == ());
                },
            }
        }
        while i < bytes.len()
            invariant
                i <= bytes.len(),
                spec_parse(ground_model(), bytes@) == prepend(
                    res@,
                    spec_parse(parser@, bytes@.skip(i as int)),
                ),
            decreases bytes.len() - i,
        {
            proof {
                assert(bytes@.skip(i as int).drop_first() =~= bytes@.skip(i as int + 1));
            }
            let ghost before = res@;
            match parser.input(bytes[i]) {
                Some(Ok(ch)) => {
                    string_push(&mut res, ch);
                    proof {
                        match spec_parse(parser@, bytes@.skip(i as int + 1)) {
                            Ok(rest) => {
                                assert(before + (seq![ch] + rest) =~= res@ + rest);
                            },
                            Err(_) => {},
                        }
                    }
                },
                Some(Err(_)) => {
                    return Err(());
                },
                None => {},
            }
            i += 1;
        }
        proof {
            assert(bytes@.skip(i as int).len() == 0);
            assert(res@ + Seq::<char>::empty() =~= res@);
        }
        Ok(res)
    }

    /// Decodes `bytes`, putting a replacement character for every error.
    pub fn parse_lossy(bytes: &[u8]) -> (r: String)
        ensures
            r@ == spec_parse_lossy(ground_model(), bytes@),
    {
        let mut parser = Parser::new();
        let mut res = String::new();
        let mut i: usize = 0;
        proof {
            assert(bytes@.skip(0) =~= bytes@);
            assert(res@ + spec_parse_lossy(ground_model(), bytes@) =~= spec_parse_lossy(
                ground_model(),
                bytes@,
            ));
        }
        while i < bytes.len()
            invariant
                i <= bytes.len(),
                spec_parse_lossy(ground_model(), bytes@) == res@ + spec_parse_lossy(
                    parser@,
                    bytes@.skip(i as int),
                ),
            decreases bytes.len() - i,
        {
            proof {
                assert(bytes@.skip(i as int).drop_first() =~= bytes@.skip(i as int + 1));
            }
            let ghost before = res@;
            let ghost rest = spec_parse_lossy(
                spec_input(parser@, bytes@[i as int]).0,
                bytes@.skip(i as int + 1),
            );
            match parser.input(bytes[i]) {
                Some(Ok(ch)) => {
                    string_push(&mut res, ch);
                    proof {
                        assert(before + (seq![ch] + rest) =~= res@ + rest);
                    }
                },
                Some(Err(_)) => {
                    string_push(&mut res, REPLACE_CHAR);
                    proof {
                        assert(before + (seq![REPLACE_CHAR] + rest) =~= res@ + rest);
                    }
                },
                None => {},
            }
            i += 1;
        }
        proof {
            assert(bytes@.skip(i as int).len() == 0);
            assert(res@ + Seq::<char>::empty() =~= res@);
        }
        res
    }
}

} // verus!
