//! Display width of characters, as computed by the `unicode-width` crate.

use unicode_width::UnicodeWidthChar;
use vstd::prelude::*;

verus! {

/// The number of terminal columns that `unicode_width::UnicodeWidthChar::width`
/// assigns to a character from U+00A0 on: the column count taken from the
/// Unicode tables of that crate.
pub uninterp spec fn unicode_columns(ch: char) -> Option<usize>;

/// The display width of a character. Up to U+009F it is fixed: one column
/// for the printable ASCII characters, and none at all, not even zero, for
/// the control characters. From U+00A0 on the tables decide.
pub open spec fn char_columns(ch: char) -> Option<usize> {
    if 0x20 <= ch as u32 <= 0x7e {
        Some(1usize)
    } else if ch as u32 <= 0x9f {
        None
    } else {
        unicode_columns(ch)
    }
}

/// Calls `UnicodeWidthChar::width` of the `unicode-width` crate on `ch`.
///
/// Trusted: the result is `Some(1)` for U+0020 to U+007E and `None` for the
/// other characters up to U+009F, as the function decides before it looks
/// at any table; for all other characters the result is a function of the
/// character alone, and is given the name `unicode_columns`.
#[verifier::external_body]
pub(crate) fn char_width(ch: char) -> (w: Option<usize>)
    ensures
        w == char_columns(ch),
        ch as u32 > 0x9f ==> w == unicode_columns(ch),
{
    ch.width()
}

} // verus!
