//! The streaming decoder reads UTF-8: what it decodes from the encoding of
//! a text is that text.

use crate::utf8::{State, Utf8Model};
use vstd::prelude::*;

verus! {

proof fn lemma_bits_1(c: u32)
    by (bit_vector)
    requires
        c <= 0x7f,
    ensures
        (c & 0x7F) as u8 <= 0x7f,
        ((c & 0x7F) as u8) as u32 == c,
{
}

proof fn lemma_bits_2(c: u32)
    by (bit_vector)
    requires
        0x80 <= c <= 0x7ff,
    ensures
        0xc0 <= (0xC0u8 | ((c >> 6) & 0x1F) as u8) <= 0xdf,
        0x80 <= (0x80u8 | (c & 0x3F) as u8) <= 0xbf,
        ((((0xC0u8 | ((c >> 6) & 0x1F) as u8) & 0x1f) as u32) << 6) | ((0x80u8 | (c & 0x3F) as u8) as u32
            & 0x3f) == c,
{
}

proof fn lemma_bits_3(c: u32)
    by (bit_vector)
    requires
        0x800 <= c <= 0xffff,
    ensures
        0xe0 <= (0xE0u8 | ((c >> 12) & 0x0F) as u8) <= 0xef,
        0x80 <= (0x80u8 | ((c >> 6) & 0x3F) as u8) <= 0xbf,
        0x80 <= (0x80u8 | (c & 0x3F) as u8) <= 0xbf,
        ((((((0xE0u8 | ((c >> 12) & 0x0F) as u8) & 0x0f) as u32) << 6) | ((0x80u8 | ((c >> 6)
            & 0x3F) as u8) as u32 & 0x3f)) << 6) | ((0x80u8 | (c & 0x3F) as u8) as u32 & 0x3f) == c,
{
}

proof fn lemma_bits_4(c: u32)
    by (bit_vector)
    requires
        0x10000 <= c <= 0x10ffff,
    ensures
        0xf0 <= (0xF0u8 | ((c >> 18) & 0x7) as u8) <= 0xf4,
        0x80 <= (0x80u8 | ((c >> 12) & 0x3F) as u8) <= 0xbf,
        0x80 <= (0x80u8 | ((c >> 6) & 0x3F) as u8) <= 0xbf,
        0x80 <= (0x80u8 | (c & 0x3F) as u8) <= 0xbf,
        ((((((((0xF0u8 | ((c >> 18) & 0x7) as u8) & 0x07) as u32) << 6) | ((0x80u8 | ((c >> 12)
            & 0x3F) as u8) as u32 & 0x3f)) << 6) | ((0x80u8 | ((c >> 6) & 0x3F) as u8) as u32
            & 0x3f)) << 6) | ((0x80u8 | (c & 0x3F) as u8) as u32 & 0x3f) == c,
{
}

/// What the decoder says to a sequence of bytes, one answer for each byte
/// that makes it speak, and the state it ends in.
pub open spec fn spec_feed(v: Utf8Model, bytes: Seq<u8>) -> (Utf8Model, Seq<Result<char, ()>>)
    decreases bytes.len(),
{
    if bytes.len() == 0 {
        (v, Seq::empty())
    } else {
        let (next, emit) = crate::utf8::spec_input(v, bytes[0]);
        let (last, rest) = spec_feed(next, bytes.drop_first());
        (
            last,
            match emit {
                Some(r) => seq![r] + rest,
                None => rest,
            },
        )
    }
}

/// Between characters the decoder reads the encoding of a character as that
/// character, says nothing else, and is between characters again.
pub proof fn lemma_feed_char(v: Utf8Model, ch: char)
    requires
        v.state == State::Ground,
    ensures
        spec_feed(v, vstd::utf8::encode_scalar(ch as u32)).1 == seq![Ok::<char, ()>(ch)],
        spec_feed(v, vstd::utf8::encode_scalar(ch as u32)).0.state == State::Ground,
{
    let c = ch as u32;
    vstd::utf8::char_is_scalar(ch);
    vstd::utf8::char_u32_cast(ch, c);
    let enc = vstd::utf8::encode_scalar(c);
    let s1 = enc.drop_first();
    let v1 = crate::utf8::spec_input(v, enc[0]).0;
    if c <= 0x7f {
        lemma_bits_1(c);
        assert(s1.len() == 0);
        assert(spec_feed(v1, s1).1 =~= Seq::<Result<char, ()>>::empty());
        assert(enc[0] as char == ch);
        assert(spec_feed(v, enc).1 =~= seq![Ok::<char, ()>(ch)]);
    } else if c <= 0x7ff {
        lemma_bits_2(c);
        let v2 = crate::utf8::spec_input(v1, s1[0]).0;
        let s2 = s1.drop_first();
        assert(s1[0] == enc[1]);
        assert(s2.len() == 0);
        assert(spec_feed(v2, s2).1 =~= Seq::<Result<char, ()>>::empty());
        assert(crate::utf8::spec_input(v1, s1[0]).1 == Some(Ok::<char, ()>(ch)));
        assert(spec_feed(v1, s1).1 =~= seq![Ok::<char, ()>(ch)]);
        assert(spec_feed(v, enc).1 =~= seq![Ok::<char, ()>(ch)]);
    } else if c <= 0xffff {
        lemma_bits_3(c);
        let v2 = crate::utf8::spec_input(v1, s1[0]).0;
        let s2 = s1.drop_first();
        let v3 = crate::utf8::spec_input(v2, s2[0]).0;
        let s3 = s2.drop_first();
        assert(s1[0] == enc[1]);
        assert(s2[0] == enc[2]);
        assert(s3.len() == 0);
        assert(spec_feed(v3, s3).1 =~= Seq::<Result<char, ()>>::empty());
        assert(crate::utf8::spec_input(v1, s1[0]).1 is None);
        assert(crate::utf8::spec_input(v2, s2[0]).1 == Some(Ok::<char, ()>(ch)));
        assert(spec_feed(v2, s2).1 =~= seq![Ok::<char, ()>(ch)]);
        assert(spec_feed(v1, s1).1 =~= seq![Ok::<char, ()>(ch)]);
        assert(spec_feed(v, enc).1 =~= seq![Ok::<char, ()>(ch)]);
    } else {
        lemma_bits_4(c);
        let v2 = crate::utf8::spec_input(v1, s1[0]).0;
        let s2 = s1.drop_first();
        let v3 = crate::utf8::spec_input(v2, s2[0]).0;
        let s3 = s2.drop_first();
        let v4 = crate::utf8::spec_input(v3, s3[0]).0;
        let s4 = s3.drop_first();
        assert(s1[0] == enc[1]);
        assert(s2[0] == enc[2]);
        assert(s3[0] == enc[3]);
        assert(s4.len() == 0);
        assert(spec_feed(v4, s4).1 =~= Seq::<Result<char, ()>>::empty());
        assert(crate::utf8::spec_input(v1, s1[0]).1 is None);
        assert(crate::utf8::spec_input(v2, s2[0]).1 is None);
        assert(crate::utf8::spec_input(v3, s3[0]).1 == Some(Ok::<char, ()>(ch)));
        assert(spec_feed(v3, s3).1 =~= seq![Ok::<char, ()>(ch)]);
        assert(spec_feed(v2, s2).1 =~= seq![Ok::<char, ()>(ch)]);
        assert(spec_feed(v1, s1).1 =~= seq![Ok::<char, ()>(ch)]);
        assert(spec_feed(v, enc).1 =~= seq![Ok::<char, ()>(ch)]);
    }
}

/// Feeding bytes in two parts is feeding them at once.
pub proof fn lemma_feed_concat(v: Utf8Model, a: Seq<u8>, b: Seq<u8>)
    ensures
        spec_feed(v, a + b).0 == spec_feed(spec_feed(v, a).0, b).0,
        spec_feed(v, a + b).1 == spec_feed(v, a).1 + spec_feed(spec_feed(v, a).0, b).1,
    decreases a.len(),
{
    if a.len() == 0 {
        assert(a + b =~= b);
        assert(spec_feed(v, a).1 + spec_feed(v, b).1 =~= spec_feed(v, b).1);
    } else {
        let (next, emit) = crate::utf8::spec_input(v, a[0]);
        lemma_feed_concat(next, a.drop_first(), b);
        assert((a + b).drop_first() =~= a.drop_first() + b);
        assert((a + b)[0] == a[0]);
        let mid = spec_feed(next, a.drop_first()).1;
        let tail = spec_feed(spec_feed(v, a).0, b).1;
        match emit {
            Some(r) => {
                assert(seq![r] + (mid + tail) =~= (seq![r] + mid) + tail);
            },
            None => {},
        }
    }
}

/// The answers to a text that is encoded in UTF-8.
pub open spec fn all_ok(chars: Seq<char>) -> Seq<Result<char, ()>> {
    Seq::new(chars.len(), |i: int| Ok::<char, ()>(chars[i]))
}

/// The decoder reads the UTF-8 encoding of a text as that text, character
/// by character and without an error.
pub proof fn lemma_feed_text(v: Utf8Model, chars: Seq<char>)
    requires
        v.state == State::Ground,
    ensures
        spec_feed(v, vstd::utf8::encode_utf8(chars)).1 == all_ok(chars),
        spec_feed(v, vstd::utf8::encode_utf8(chars)).0.state == State::Ground,
    decreases chars.len(),
{
    if chars.len() == 0 {
        assert(spec_feed(v, vstd::utf8::encode_utf8(chars)).1 =~= all_ok(chars));
    } else {
        let head = vstd::utf8::encode_scalar(chars[0] as u32);
        let tail = vstd::utf8::encode_utf8(chars.drop_first());
        lemma_feed_char(v, chars[0]);
        lemma_feed_concat(v, head, tail);
        lemma_feed_text(spec_feed(v, head).0, chars.drop_first());
        assert(seq![Ok::<char, ()>(chars[0])] + all_ok(chars.drop_first()) =~= all_ok(chars));
    }
}

/// Lossy decoding puts every answer of the decoder in the text, errors as
/// replacement characters; strict decoding does so as long as there is no
/// error.
pub proof fn lemma_parse_is_feed(v: Utf8Model, bytes: Seq<u8>)
    ensures
        crate::utf8::spec_parse_lossy(v, bytes) == Seq::new(
            spec_feed(v, bytes).1.len(),
            |i: int|
                match spec_feed(v, bytes).1[i] {
                    Ok(ch) => ch,
                    Err(_) => crate::utf8::REPLACE_CHAR,
                },
        ),
        (forall|i: int| 0 <= i < spec_feed(v, bytes).1.len() ==> spec_feed(v, bytes).1[i] is Ok)
            ==> crate::utf8::spec_parse(v, bytes) == Ok::<Seq<char>, ()>(
            crate::utf8::spec_parse_lossy(v, bytes),
        ),
    decreases bytes.len(),
{
    let answers = spec_feed(v, bytes).1;
    let text = Seq::new(
        answers.len(),
        |i: int|
            match answers[i] {
                Ok(ch) => ch,
                Err(_) => crate::utf8::REPLACE_CHAR,
            },
    );
    if bytes.len() == 0 {
        assert(crate::utf8::spec_parse_lossy(v, bytes) =~= text);
    } else {
        let (next, emit) = crate::utf8::spec_input(v, bytes[0]);
        lemma_parse_is_feed(next, bytes.drop_first());
        let rest = spec_feed(next, bytes.drop_first()).1;
        assert(crate::utf8::spec_parse_lossy(v, bytes) =~= text);
        if forall|i: int| 0 <= i < answers.len() ==> answers[i] is Ok {
            match emit {
                Some(r) => {
                    assert(answers[0] == r);
                    assert forall|i: int| 0 <= i < rest.len() implies rest[i] is Ok by {
                        assert(answers[i + 1] == rest[i]);
                    }
                },
                None => {},
            }
        }
    }
}

/// Decoding the UTF-8 encoding of a text gives the text, strictly and
/// lossily.
pub proof fn lemma_parse_encoded(chars: Seq<char>)
    ensures
        crate::utf8::spec_parse(crate::utf8::ground_model(), vstd::utf8::encode_utf8(chars)) == Ok::<
            Seq<char>,
            (),
        >(chars),
        crate::utf8::spec_parse_lossy(crate::utf8::ground_model(), vstd::utf8::encode_utf8(chars))
            == chars,
{
    let v = crate::utf8::ground_model();
    let bytes = vstd::utf8::encode_utf8(chars);
    lemma_feed_text(v, chars);
    lemma_parse_is_feed(v, bytes);
    assert(crate::utf8::spec_parse_lossy(v, bytes) =~= chars);
}

} // verus!
