//! The vocabulary shared by the VT parser and the screen model: colours,
//! renditions, modes, erase kinds, reports, and the verbs the parser emits.

use vstd::prelude::*;

verus! {

pub const RENDITION_BOLD: u8 = 0x01;
pub const RENDITION_UNDERLINED: u8 = 0x02;
pub const RENDITION_BLINKING: u8 = 0x04;
pub const RENDITION_INVERSE: u8 = 0x08;
pub const RENDITION_INVISIBLE: u8 = 0x10;
/// All attributes that SGR can switch.
pub const RENDITION_ALL: u8 = 0x1f;
/// Marks the left half of a double-width glyph.
pub const RENDITION_WIDE: u8 = 0x20;
/// Rendering hint: the cell changed since it was last drawn.
pub const RENDITION_DIRTY: u8 = 0x40;

/// A set of rendition attributes, one bit each.
#[derive(Debug, Clone, Copy, PartialEq, Eq, Structural)]
pub struct VTRendition {
    pub bits: u8,
}

impl VTRendition {
    pub open spec fn spec_contains(self, other: VTRendition) -> bool {
        self.bits & other.bits == other.bits
    }

    pub open spec fn spec_set(self, other: VTRendition, enable: bool) -> VTRendition {
        if enable {
            VTRendition { bits: self.bits | other.bits }
        } else {
            VTRendition { bits: self.bits & !other.bits }
        }
    }

    pub fn from_bits(bits: u8) -> (r: VTRendition)
        ensures
            r.bits == bits,
    {
        VTRendition { bits }
    }

    pub fn empty() -> (r: VTRendition)
        ensures
            r.bits == 0,
    {
        VTRendition { bits: 0 }
    }

    pub fn bold() -> (r: VTRendition)
        ensures
            r.bits == RENDITION_BOLD,
    {
        VTRendition { bits: RENDITION_BOLD }
    }

    pub fn underlined() -> (r: VTRendition)
        ensures
            r.bits == RENDITION_UNDERLINED,
    {
        VTRendition { bits: RENDITION_UNDERLINED }
    }

    pub fn blinking() -> (r: VTRendition)
        ensures
            r.bits == RENDITION_BLINKING,
    {
        VTRendition { bits: RENDITION_BLINKING }
    }

    pub fn inverse() -> (r: VTRendition)
        ensures
            r.bits == RENDITION_INVERSE,
    {
        VTRendition { bits: RENDITION_INVERSE }
    }

    pub fn invisible() -> (r: VTRendition)
        ensures
            r.bits == RENDITION_INVISIBLE,
    {
        VTRendition { bits: RENDITION_INVISIBLE }
    }

    pub fn all() -> (r: VTRendition)
        ensures
            r.bits == RENDITION_ALL,
    {
        VTRendition { bits: RENDITION_ALL }
    }

    pub fn wide() -> (r: VTRendition)
        ensures
            r.bits == RENDITION_WIDE,
    {
        VTRendition { bits: RENDITION_WIDE }
    }

    pub fn dirty() -> (r: VTRendition)
        ensures
            r.bits == RENDITION_DIRTY,
    {
        VTRendition { bits: RENDITION_DIRTY }
    }

    pub fn bits(&self) -> (r: u8)
        ensures
            r == self.bits,
    {
        self.bits
    }

    #[verifier::when_used_as_spec(spec_contains)]
    pub fn contains(self, other: VTRendition) -> (r: bool)
        ensures
            r == self.spec_contains(other),
    {
        self.bits & other.bits == other.bits
    }

    /// Switches the attributes of `other` on or off, leaving the rest alone.
    pub fn set(&mut self, other: VTRendition, enable: bool)
        ensures
            *final(self) == old(self).spec_set(other, enable),
    {
        if enable {
            self.bits = self.bits | other.bits;
        } else {
            self.bits = self.bits & !other.bits;
        }
    }

    pub fn insert(&mut self, other: VTRendition)
        ensures
            *final(self) == old(self).spec_set(other, true),
    {
        self.bits = self.bits | other.bits;
    }

    pub fn remove(&mut self, other: VTRendition)
        ensures
            *final(self) == old(self).spec_set(other, false),
    {
        self.bits = self.bits & !other.bits;
    }
}

impl Default for VTRendition {
    /// A fresh rendition carries only the dirty hint.
    fn default() -> (r: VTRendition)
        ensures
            r.bits == RENDITION_DIRTY,
    {
        VTRendition { bits: RENDITION_DIRTY }
    }
}

#[derive(Debug, Clone, Copy, PartialEq, Eq, Structural)]
pub enum VTColor {
    /// The renderer's foreground colour.
    DefaultFg,
    /// The renderer's background colour.
    DefaultBg,
    Indexed(u8),
    Rgb(u8, u8, u8),
}

#[derive(Debug, Clone, Copy, PartialEq, Eq, Structural)]
pub enum VTCharset {
    /// Encoded 'B', the regular character set.
    UsAscii,
    /// Encoded '0', glyphs for drawing boxes and lines.
    Graphics,
}

impl VTCharset {
    pub open spec fn spec_decode(byte: u8) -> Option<VTCharset> {
        if byte == 0x30 {
            Some(VTCharset::Graphics)
        } else if byte == 0x42 {
            Some(VTCharset::UsAscii)
        } else {
            None
        }
    }

    /// The character set that a designation byte names, if any.
    pub fn decode(byte: u8) -> (r: Option<VTCharset>)
        ensures
            r == Self::spec_decode(byte),
    {
        if byte == 0x30 {
            Some(VTCharset::Graphics)
        } else if byte == 0x42 {
            Some(VTCharset::UsAscii)
        } else {
            None
        }
    }
}

impl Default for VTCharset {
    fn default() -> (r: VTCharset)
        ensures
            r == VTCharset::UsAscii,
    {
        VTCharset::UsAscii
    }
}

pub const MODE_WRAP: u8 = 0x01;
pub const MODE_ORIGIN: u8 = 0x02;
pub const MODE_NEWLINE: u8 = 0x04;
pub const MODE_INSERT: u8 = 0x08;
pub const MODE_REVERSE_VIDEO: u8 = 0x10;
pub const MODE_APP_CURSOR_KEYS: u8 = 0x20;

/// A set of terminal modes, one bit each.
#[derive(Debug, Clone, Copy, PartialEq, Eq, Structural)]
pub struct VTMode {
    pub bits: u8,
}

impl VTMode {
    pub open spec fn spec_contains(self, other: VTMode) -> bool {
        self.bits & other.bits == other.bits
    }

    pub open spec fn spec_set(self, other: VTMode, enable: bool) -> VTMode {
        if enable {
            VTMode { bits: self.bits | other.bits }
        } else {
            VTMode { bits: self.bits & !other.bits }
        }
    }

    pub open spec fn has(self, mask: u8) -> bool {
        self.bits & mask == mask
    }

    pub fn from_bits(bits: u8) -> (r: VTMode)
        ensures
            r.bits == bits,
    {
        VTMode { bits }
    }

    pub fn empty() -> (r: VTMode)
        ensures
            r.bits == 0,
    {
        VTMode { bits: 0 }
    }

    pub fn wrap() -> (r: VTMode)
        ensures
            r.bits == MODE_WRAP,
    {
        VTMode { bits: MODE_WRAP }
    }

    pub fn origin() -> (r: VTMode)
        ensures
            r.bits == MODE_ORIGIN,
    {
        VTMode { bits: MODE_ORIGIN }
    }

    pub fn newline() -> (r: VTMode)
        ensures
            r.bits == MODE_NEWLINE,
    {
        VTMode { bits: MODE_NEWLINE }
    }

    pub fn insert_mode() -> (r: VTMode)
        ensures
            r.bits == MODE_INSERT,
    {
        VTMode { bits: MODE_INSERT }
    }

    pub fn reverse_video() -> (r: VTMode)
        ensures
            r.bits == MODE_REVERSE_VIDEO,
    {
        VTMode { bits: MODE_REVERSE_VIDEO }
    }

    pub fn app_cursor_keys() -> (r: VTMode)
        ensures
            r.bits == MODE_APP_CURSOR_KEYS,
    {
        VTMode { bits: MODE_APP_CURSOR_KEYS }
    }

    pub fn bits(&self) -> (r: u8)
        ensures
            r == self.bits,
    {
        self.bits
    }

    #[verifier::when_used_as_spec(spec_contains)]
    pub fn contains(self, other: VTMode) -> (r: bool)
        ensures
            r == self.spec_contains(other),
    {
        self.bits & other.bits == other.bits
    }

    /// Switches the modes of `other` on or off, leaving the rest alone.
    pub fn set(&mut self, other: VTMode, enable: bool)
        ensures
            *final(self) == old(self).spec_set(other, enable),
    {
        if enable {
            self.bits = self.bits | other.bits;
        } else {
            self.bits = self.bits & !other.bits;
        }
    }
}

impl Default for VTMode {
    /// Auto-wrap is the only mode that starts enabled.
    fn default() -> (r: VTMode)
        ensures
            r.bits == MODE_WRAP,
    {
        VTMode { bits: MODE_WRAP }
    }
}

#[derive(Debug, Clone, Copy, PartialEq, Eq, Structural)]
pub enum VTErase {
    All,
    Above,
    Below,
    Line,
    LineLeft,
    LineRight,
    NumChars(u32),
}

#[derive(Debug, Clone, Copy, PartialEq, Eq, Structural)]
pub enum VTReport {
    AnswerBack,
    PrimaryAttrs,
    SecondaryAttrs,
    DeviceStatus,
    CursorPos,
    TermParams0,
    TermParams1,
}

#[derive(Debug, Clone, Copy, PartialEq, Eq, Structural)]
pub enum VTScreenChoice {
    Primary,
    Alternate,
}

impl Default for VTScreenChoice {
    fn default() -> (r: VTScreenChoice)
        ensures
            r == VTScreenChoice::Primary,
    {
        VTScreenChoice::Primary
    }
}

/// One operation on a screen, as data.
#[derive(Debug, Clone, Copy, PartialEq, Eq, Structural)]
pub enum VTVerb {
    PutChar(char),
    PutChars(u32),
    Newline,
    Index(bool),
    NextLine,
    Erase(VTErase),
    Tab(i32),
    TabSet(bool),
    TabsClear,
    Reset,
    Resize(u32, u32),
    Scroll(i32),
    ScrollAtCursor(i32),
    SetScrollRegion(u32, u32),
    SetMode(VTMode, bool),
    SetRendition(VTRendition, bool),
    SetFg(VTColor),
    SetBg(VTColor),
    CharsetUse(u32),
    CharsetDesignate(u32, VTCharset),
    CursorSet(Option<u32>, Option<u32>),
    CursorMove(i32, i32),
    CursorSave,
    CursorLoad,
    AlignmentTest,
}

/// Which screen of a dispatcher a verb is addressed to.
#[derive(Debug, Clone, Copy, PartialEq, Eq, Structural)]
pub enum VTTarget {
    Current,
    Primary,
    Alternate,
}

/// One thing the parser asks of its dispatcher, as data.
#[derive(Debug, Clone, Copy, PartialEq, Eq, Structural)]
pub enum VTEffect {
    Screen(VTTarget, VTVerb),
    SwitchScreen(VTScreenChoice),
    SetMode(VTMode, bool),
    Report(VTReport),
    Bell,
}

/// The verbs of a VT screen. The parser is generic over this interface.
///
/// Every implementor gives a mathematical model of itself and says, as the
/// function `act`, what each verb does to that model; each method promises to
/// follow `act`.
pub trait VTScreen {
    type V;

    spec fn model(&self) -> Self::V;

    spec fn inv(&self) -> bool;

    spec fn act(v: Self::V, verb: VTVerb) -> Self::V;

    /// Insert a unicode character.
    fn put_char(&mut self, ch: char)
        requires
            old(self).inv(),
        ensures
            final(self).inv(),
            final(self).model() == Self::act(old(self).model(), VTVerb::PutChar(ch)),
    ;

    /// Insert `num` empty characters.
    fn put_chars(&mut self, num: u32)
        requires
            old(self).inv(),
        ensures
            final(self).inv(),
            final(self).model() == Self::act(old(self).model(), VTVerb::PutChars(num)),
    ;

    fn newline(&mut self)
        requires
            old(self).inv(),
        ensures
            final(self).inv(),
            final(self).model() == Self::act(old(self).model(), VTVerb::Newline),
    ;

    fn index(&mut self, forward: bool)
        requires
            old(self).inv(),
        ensures
            final(self).inv(),
            final(self).model() == Self::act(old(self).model(), VTVerb::Index(forward)),
    ;

    fn next_line(&mut self)
        requires
            old(self).inv(),
        ensures
            final(self).inv(),
            final(self).model() == Self::act(old(self).model(), VTVerb::NextLine),
    ;

    /// Performs an erase operation relative to the cursor.
    fn erase(&mut self, erase: VTErase)
        requires
            old(self).inv(),
        ensures
            final(self).inv(),
            final(self).model() == Self::act(old(self).model(), VTVerb::Erase(erase)),
    ;

    /// Move the cursor by `tabs` tab stops, backwards if negative.
    fn tab(&mut self, tabs: i32)
        requires
            old(self).inv(),
        ensures
            final(self).inv(),
            final(self).model() == Self::act(old(self).model(), VTVerb::Tab(tabs)),
    ;

    fn tab_set(&mut self, tab: bool)
        requires
            old(self).inv(),
        ensures
            final(self).inv(),
            final(self).model() == Self::act(old(self).model(), VTVerb::TabSet(tab)),
    ;

    fn tabs_clear(&mut self)
        requires
            old(self).inv(),
        ensures
            final(self).inv(),
            final(self).model() == Self::act(old(self).model(), VTVerb::TabsClear),
    ;

    fn reset(&mut self)
        requires
            old(self).inv(),
        ensures
            final(self).inv(),
            final(self).model() == Self::act(old(self).model(), VTVerb::Reset),
    ;

    fn resize(&mut self, cols: u32, rows: u32)
        requires
            old(self).inv(),
        ensures
            final(self).inv(),
            final(self).model() == Self::act(old(self).model(), VTVerb::Resize(cols, rows)),
    ;

    /// Scroll the screen or the scrolling region, up if `num` is positive.
    fn scroll(&mut self, num: i32)
        requires
            old(self).inv(),
        ensures
            final(self).inv(),
            final(self).model() == Self::act(old(self).model(), VTVerb::Scroll(num)),
    ;

    /// Scroll between the cursor's line and the bottom of the scrolling region.
    fn scroll_at_cursor(&mut self, num: i32)
        requires
            old(self).inv(),
        ensures
            final(self).inv(),
            final(self).model() == Self::act(old(self).model(), VTVerb::ScrollAtCursor(num)),
    ;

    /// Set the scrolling region; both arguments count from 1, 0 is "default".
    fn set_scroll_region(&mut self, top: u32, bottom: u32)
        requires
            old(self).inv(),
        ensures
            final(self).inv(),
            final(self).model() == Self::act(
                old(self).model(),
                VTVerb::SetScrollRegion(top, bottom),
            ),
    ;

    fn set_mode(&mut self, mode: VTMode, enable: bool)
        requires
            old(self).inv(),
        ensures
            final(self).inv(),
            final(self).model() == Self::act(old(self).model(), VTVerb::SetMode(mode, enable)),
    ;

    fn set_rendition(&mut self, rend: VTRendition, enable: bool)
        requires
            old(self).inv(),
        ensures
            final(self).inv(),
            final(self).model() == Self::act(
                old(self).model(),
                VTVerb::SetRendition(rend, enable),
            ),
    ;

    fn set_fg(&mut self, color: VTColor)
        requires
            old(self).inv(),
        ensures
            final(self).inv(),
            final(self).model() == Self::act(old(self).model(), VTVerb::SetFg(color)),
    ;

    fn set_bg(&mut self, color: VTColor)
        requires
            old(self).inv(),
        ensures
            final(self).inv(),
            final(self).model() == Self::act(old(self).model(), VTVerb::SetBg(color)),
    ;

    fn charset_use(&mut self, slot: u32)
        requires
            old(self).inv(),
        ensures
            final(self).inv(),
            final(self).model() == Self::act(old(self).model(), VTVerb::CharsetUse(slot)),
    ;

    fn charset_designate(&mut self, slot: u32, charset: VTCharset)
        requires
            old(self).inv(),
        ensures
            final(self).inv(),
            final(self).model() == Self::act(
                old(self).model(),
                VTVerb::CharsetDesignate(slot, charset),
            ),
    ;

    /// Set the cursor's absolute position; coordinates count from 1.
    fn cursor_set(&mut self, x: Option<u32>, y: Option<u32>)
        requires
            old(self).inv(),
        ensures
            final(self).inv(),
            final(self).model() == Self::act(old(self).model(), VTVerb::CursorSet(x, y)),
    ;

    /// Move the cursor relative to where it is.
    fn cursor_move(&mut self, x: i32, y: i32)
        requires
            old(self).inv(),
        ensures
            final(self).inv(),
            final(self).model() == Self::act(old(self).model(), VTVerb::CursorMove(x, y)),
    ;

    /// Save the cursor: position, style, character sets and origin mode.
    fn cursor_save(&mut self)
        requires
            old(self).inv(),
        ensures
            final(self).inv(),
            final(self).model() == Self::act(old(self).model(), VTVerb::CursorSave),
    ;

    /// Restore what `cursor_save` saved.
    fn cursor_load(&mut self)
        requires
            old(self).inv(),
        ensures
            final(self).inv(),
            final(self).model() == Self::act(old(self).model(), VTVerb::CursorLoad),
    ;

    /// DEC screen alignment test: fill the screen with `E`.
    fn alignment_test(&mut self)
        requires
            old(self).inv(),
        ensures
            final(self).inv(),
            final(self).model() == Self::act(old(self).model(), VTVerb::AlignmentTest),
    ;
}

/// What the parser needs from its owner: the screens, and a sink for mode
/// changes, report requests and the bell.
pub trait VTDispatch {
    type Screen: VTScreen;

    type V;

    spec fn model(&self) -> Self::V;

    spec fn inv(&self) -> bool;

    /// The model of the screen that `target` names.
    spec fn screen_at(v: Self::V, target: VTTarget) -> <Self::Screen as VTScreen>::V;

    /// The dispatcher's model with the screen that `target` names replaced.
    spec fn with_screen(
        v: Self::V,
        target: VTTarget,
        screen: <Self::Screen as VTScreen>::V,
    ) -> Self::V;

    /// What an effect other than a screen verb does to the model.
    spec fn act(v: Self::V, effect: VTEffect) -> Self::V;

    /// Reference the current screen.
    fn screen(&mut self) -> (s: &mut Self::Screen)
        requires
            old(self).inv(),
        ensures
            s.inv(),
            s.model() == Self::screen_at(old(self).model(), VTTarget::Current),
            final(s).inv() ==> final(self).inv(),
            final(self).model() == Self::with_screen(
                old(self).model(),
                VTTarget::Current,
                final(s).model(),
            ),
    ;

    /// Reference the primary screen.
    fn screen_primary(&mut self) -> (s: &mut Self::Screen)
        requires
            old(self).inv(),
        ensures
            s.inv(),
            s.model() == Self::screen_at(old(self).model(), VTTarget::Primary),
            final(s).inv() ==> final(self).inv(),
            final(self).model() == Self::with_screen(
                old(self).model(),
                VTTarget::Primary,
                final(s).model(),
            ),
    ;

    /// Reference the alternate screen.
    fn screen_alternate(&mut self) -> (s: &mut Self::Screen)
        requires
            old(self).inv(),
        ensures
            s.inv(),
            s.model() == Self::screen_at(old(self).model(), VTTarget::Alternate),
            final(s).inv() ==> final(self).inv(),
            final(self).model() == Self::with_screen(
                old(self).model(),
                VTTarget::Alternate,
                final(s).model(),
            ),
    ;

    /// Set the current screen.
    fn switch_screen(&mut self, screen: VTScreenChoice)
        requires
            old(self).inv(),
        ensures
            final(self).inv(),
            final(self).model() == Self::act(old(self).model(), VTEffect::SwitchScreen(screen)),
    ;

    /// Set a mode on the dispatcher and on both screens.
    fn set_mode(&mut self, mode: VTMode, enable: bool)
        requires
            old(self).inv(),
        ensures
            final(self).inv(),
            final(self).model() == Self::act(old(self).model(), VTEffect::SetMode(mode, enable)),
    ;

    /// Queue up a terminal report request.
    fn report_request(&mut self, report: VTReport)
        requires
            old(self).inv(),
        ensures
            final(self).inv(),
            final(self).model() == Self::act(old(self).model(), VTEffect::Report(report)),
    ;

    /// Raise the bell.
    fn bell(&mut self)
        requires
            old(self).inv(),
        ensures
            final(self).inv(),
            final(self).model() == Self::act(old(self).model(), VTEffect::Bell),
    ;
}

/// What an effect does to the model of a dispatcher: a screen verb acts on the
/// screen it is addressed to, anything else is the dispatcher's own business.
pub open spec fn apply_effect<D: VTDispatch>(v: D::V, effect: VTEffect) -> D::V {
    match effect {
        VTEffect::Screen(target, verb) => D::with_screen(
            v,
            target,
            <D::Screen as VTScreen>::act(D::screen_at(v, target), verb),
        ),
        _ => D::act(v, effect),
    }
}

/// Performs one verb on a screen.
pub fn perform_verb<S: VTScreen>(screen: &mut S, verb: VTVerb)
    requires
        old(screen).inv(),
    ensures
        final(screen).inv(),
        final(screen).model() == S::act(old(screen).model(), verb),
{
    match verb {
        VTVerb::PutChar(ch) => screen.put_char(ch),
        VTVerb::PutChars(num) => screen.put_chars(num),
        VTVerb::Newline => screen.newline(),
        VTVerb::Index(forward) => screen.index(forward),
        VTVerb::NextLine => screen.next_line(),
        VTVerb::Erase(erase) => screen.erase(erase),
        VTVerb::Tab(tabs) => screen.tab(tabs),
        VTVerb::TabSet(tab) => screen.tab_set(tab),
        VTVerb::TabsClear => screen.tabs_clear(),
        VTVerb::Reset => screen.reset(),
        VTVerb::Resize(cols, rows) => screen.resize(cols, rows),
        VTVerb::Scroll(num) => screen.scroll(num),
        VTVerb::ScrollAtCursor(num) => screen.scroll_at_cursor(num),
        VTVerb::SetScrollRegion(top, bottom) => screen.set_scroll_region(top, bottom),
        VTVerb::SetMode(mode, enable) => screen.set_mode(mode, enable),
        VTVerb::SetRendition(rend, enable) => screen.set_rendition(rend, enable),
        VTVerb::SetFg(color) => screen.set_fg(color),
        VTVerb::SetBg(color) => screen.set_bg(color),
        VTVerb::CharsetUse(slot) => screen.charset_use(slot),
        VTVerb::CharsetDesignate(slot, charset) => screen.charset_designate(slot, charset),
        VTVerb::CursorSet(x, y) => screen.cursor_set(x, y),
        VTVerb::CursorMove(x, y) => screen.cursor_move(x, y),
        VTVerb::CursorSave => screen.cursor_save(),
        VTVerb::CursorLoad => screen.cursor_load(),
        VTVerb::AlignmentTest => screen.alignment_test(),
    }
}

/// Performs one effect on a dispatcher.
pub fn perform_effect<D: VTDispatch>(dispatch: &mut D, effect: VTEffect)
    requires
        old(dispatch).inv(),
    ensures
        final(dispatch).inv(),
        final(dispatch).model() == apply_effect::<D>(old(dispatch).model(), effect),
{
    match effect {
        VTEffect::Screen(target, verb) => {
            match target {
                VTTarget::Current => {
                    let screen = dispatch.screen();
                    perform_verb(screen, verb);
                },
                VTTarget::Primary => {
                    let screen = dispatch.screen_primary();
                    perform_verb(screen, verb);
                },
                VTTarget::Alternate => {
                    let screen = dispatch.screen_alternate();
                    perform_verb(screen, verb);
                },
            }
        },
        VTEffect::SwitchScreen(screen) => dispatch.switch_screen(screen),
        VTEffect::SetMode(mode, enable) => dispatch.set_mode(mode, enable),
        VTEffect::Report(report) => dispatch.report_request(report),
        VTEffect::Bell => dispatch.bell(),
    }
}

/// What a sequence of effects, applied in order, does to the model of a
/// dispatcher.
pub open spec fn apply_effects<D: VTDispatch>(v: D::V, effects: Seq<VTEffect>) -> D::V
    decreases effects.len(),
{
    if effects.len() == 0 {
        v
    } else {
        apply_effect::<D>(apply_effects::<D>(v, effects.drop_last()), effects.last())
    }
}

/// Applying `a` and then `b` is applying `a + b`.
pub proof fn lemma_apply_effects_concat<D: VTDispatch>(v: D::V, a: Seq<VTEffect>, b: Seq<VTEffect>)
    ensures
        apply_effects::<D>(v, a + b) == apply_effects::<D>(apply_effects::<D>(v, a), b),
    decreases b.len(),
{
    if b.len() == 0 {
        assert(a + b =~= a);
    } else {
        lemma_apply_effects_concat::<D>(v, a, b.drop_last());
        assert((a + b).drop_last() =~= a + b.drop_last());
        assert((a + b).last() == b.last());
    }
}

/// Performs a sequence of effects on a dispatcher, in order.
pub fn perform_effects<D: VTDispatch>(dispatch: &mut D, effects: &Vec<VTEffect>)
    requires
        old(dispatch).inv(),
    ensures
        final(dispatch).inv(),
        final(dispatch).model() == apply_effects::<D>(old(dispatch).model(), effects@),
{
    let mut i: usize = 0;
    while i < effects.len()
        invariant
            i <= effects.len(),
            dispatch.inv(),
            dispatch.model() == apply_effects::<D>(old(dispatch).model(), effects@.take(i as int)),
        decreases effects.len() - i,
    {
        proof {
            assert(effects@.take(i as int + 1).drop_last() =~= effects@.take(i as int));
        }
        perform_effect(dispatch, effects[i]);
        i += 1;
    }
    proof {
        assert(effects@.take(i as int) =~= effects@);
    }
}

} // verus!
