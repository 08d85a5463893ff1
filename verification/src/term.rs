//! The terminal's state: two screens, the modes, the bell and the pending
//! report requests; and the terminal itself, which adds parser and input
//! encoder.

use crate::input::{InputData, VTInput};
use crate::parser::VTParser;
use crate::reports::{reports_drain, reports_len, reports_new, reports_push, ReportRequests};
use crate::screen::Screen;
use crate::screen_model::ScreenModel;
use crate::scrollback::MemScrollback;
use crate::vt::{VTDispatch, VTEffect, VTMode, VTReport, VTScreenChoice, VTTarget, VTVerb};
use vstd::prelude::*;

verus! {

/// The terminal's state as a mathematical value.
pub struct TermModel {
    pub mode: VTMode,
    pub current: VTScreenChoice,
    pub primary: ScreenModel,
    pub alternate: ScreenModel,
    pub bell: bool,
    /// The pending report requests, oldest first.
    pub reports: Seq<VTReport>,
}

impl TermModel {
    /// The state of a terminal that was just switched on.
    pub open spec fn initial() -> TermModel {
        TermModel {
            mode: VTMode { bits: crate::vt::MODE_WRAP },
            current: VTScreenChoice::Primary,
            primary: ScreenModel {
                scrollback: Some(crate::scrollback::ScrollbackModel::empty(20971520)),
                ..ScreenModel::initial(
                    (
                        crate::screen_model::SCREEN_COLS_DEFAULT,
                        crate::screen_model::SCREEN_ROWS_DEFAULT,
                    ),
                )
            },
            alternate: ScreenModel::initial(
                (
                    crate::screen_model::SCREEN_COLS_DEFAULT,
                    crate::screen_model::SCREEN_ROWS_DEFAULT,
                ),
            ),
            bell: false,
            reports: Seq::empty(),
        }
    }

    pub open spec fn wf(self) -> bool {
        self.primary.wf() && self.alternate.wf()
    }

    /// The screen that a target names.
    pub open spec fn screen_at(self, target: VTTarget) -> ScreenModel {
        match target {
            VTTarget::Primary => self.primary,
            VTTarget::Alternate => self.alternate,
            VTTarget::Current => match self.current {
                VTScreenChoice::Primary => self.primary,
                VTScreenChoice::Alternate => self.alternate,
            },
        }
    }

    /// The state with the screen that a target names replaced.
    pub open spec fn with_screen(self, target: VTTarget, screen: ScreenModel) -> TermModel {
        let primary = target == VTTarget::Primary || (target == VTTarget::Current && self.current
            == VTScreenChoice::Primary);
        if primary {
            TermModel { primary: screen, ..self }
        } else {
            TermModel { alternate: screen, ..self }
        }
    }

    /// Makes `choice` the current screen. A screen that becomes current is
    /// marked for re-rendering.
    pub open spec fn switch_screen(self, choice: VTScreenChoice) -> TermModel {
        if choice == self.current {
            self
        } else {
            match choice {
                VTScreenChoice::Primary => TermModel {
                    current: choice,
                    primary: ScreenModel { dirty: true, ..self.primary },
                    ..self
                },
                VTScreenChoice::Alternate => TermModel {
                    current: choice,
                    alternate: ScreenModel { dirty: true, ..self.alternate },
                    ..self
                },
            }
        }
    }

    /// Sets a mode, here and on both screens.
    pub open spec fn set_mode(self, mode: VTMode, enable: bool) -> TermModel {
        TermModel {
            mode: self.mode.spec_set(mode, enable),
            primary: self.primary.act(VTVerb::SetMode(mode, enable)),
            alternate: self.alternate.act(VTVerb::SetMode(mode, enable)),
            ..self
        }
    }

    /// What an effect other than a screen verb does to the state.
    pub open spec fn act(self, effect: VTEffect) -> TermModel {
        match effect {
            VTEffect::Screen(_, _) => self,
            VTEffect::SwitchScreen(choice) => self.switch_screen(choice),
            VTEffect::SetMode(mode, enable) => self.set_mode(mode, enable),
            VTEffect::Report(report) => TermModel { reports: self.reports.push(report), ..self },
            VTEffect::Bell => TermModel { bell: true, ..self },
        }
    }

    /// Both screens resized.
    pub open spec fn screen_resize(self, cols: u16, rows: u16) -> TermModel {
        TermModel {
            primary: self.primary.resize(cols as u32, rows as u32),
            alternate: self.alternate.resize(cols as u32, rows as u32),
            ..self
        }
    }
}

#[derive(Debug)]
pub struct TermState {
    mode: VTMode,
    screen_current: VTScreenChoice,
    screen_primary: Screen,
    screen_alternate: Screen,
    bell: bool,
    report_requests: ReportRequests,
}

impl View for TermState {
    type V = TermModel;

    closed spec fn view(&self) -> TermModel {
        TermModel {
            mode: self.mode,
            current: self.screen_current,
            primary: self.screen_primary@,
            alternate: self.screen_alternate@,
            bell: self.bell,
            reports: crate::reports::report_items(self.report_requests),
        }
    }
}

impl TermState {
    /// The invariant: both screens are well-formed.
    pub open spec fn wf(&self) -> bool {
        self@.wf() && self.counted()
    }

    /// Whether the counters of the scrollbacks agree with what they store.
    pub closed spec fn counted(&self) -> bool {
        self.screen_primary.scrollback_counted() && self.screen_alternate.scrollback_counted()
    }

    /// A terminal state as it is when switched on: two blank screens of the
    /// default size, the primary one with a scrollback.
    pub fn new() -> (s: TermState)
        ensures
            s.wf(),
            s@ == TermModel::initial(),
    {
        let scrollback = MemScrollback::default();
        TermState {
            mode: VTMode::default(),
            screen_current: VTScreenChoice::default(),
            screen_primary: Screen::default().with_scrollback(scrollback),
            screen_alternate: Screen::default(),
            bell: false,
            report_requests: reports_new(),
        }
    }

    /// Resizes both screens.
    pub fn screen_resize(&mut self, cols: u16, rows: u16)
        requires
            old(self).wf(),
        ensures
            final(self).wf(),
            final(self)@ == old(self)@.screen_resize(cols, rows),
    {
        self.screen_primary.resize(cols, rows);
        self.screen_alternate.resize(cols, rows);
    }

    /// Says whether the bell rang since the last call, and silences it.
    pub fn reset_bell(&mut self) -> (r: bool)
        ensures
            r == old(self)@.bell,
            final(self)@ == (TermModel { bell: false, ..old(self)@ }),
            old(self).wf() ==> final(self).wf(),
    {
        let res = self.bell;
        self.bell = false;
        res
    }

    /// Hands out the pending report requests, oldest first, and forgets them.
    pub fn reset_report_requests(&mut self) -> (r: Vec<VTReport>)
        ensures
            r@ == old(self)@.reports,
            final(self)@ == (TermModel { reports: Seq::empty(), ..old(self)@ }),
            old(self).wf() ==> final(self).wf(),
    {
        reports_drain(&mut self.report_requests)
    }

    /// The number of pending report requests.
    pub fn pending_reports(&self) -> (n: usize)
        ensures
            n == self@.reports.len(),
    {
        reports_len(&self.report_requests)
    }

    /// The modes that are set.
    pub fn mode(&self) -> (m: VTMode)
        ensures
            m == self@.mode,
    {
        self.mode
    }

    /// The current screen.
    pub fn screen(&self) -> (s: &Screen)
        requires
            self.wf(),
        ensures
            s.wf(),
            s@ == self@.screen_at(VTTarget::Current),
    {
        match self.screen_current {
            VTScreenChoice::Primary => &self.screen_primary,
            VTScreenChoice::Alternate => &self.screen_alternate,
        }
    }

    /// The current screen, to change it.
    pub fn screen_mut(&mut self) -> (s: &mut Screen)
        requires
            old(self).wf(),
        ensures
            s.wf(),
            s@ == old(self)@.screen_at(VTTarget::Current),
            final(s).wf() ==> final(self).wf(),
            final(self)@ == old(self)@.with_screen(VTTarget::Current, final(s)@),
    {
        match self.screen_current {
            VTScreenChoice::Primary => &mut self.screen_primary,
            VTScreenChoice::Alternate => &mut self.screen_alternate,
        }
    }
}

impl VTDispatch for TermState {
    type Screen = Screen;

    type V = TermModel;

    open spec fn model(&self) -> TermModel {
        self@
    }

    open spec fn inv(&self) -> bool {
        self.wf()
    }

    open spec fn screen_at(v: TermModel, target: VTTarget) -> ScreenModel {
        v.screen_at(target)
    }

    open spec fn with_screen(v: TermModel, target: VTTarget, screen: ScreenModel) -> TermModel {
        v.with_screen(target, screen)
    }

    open spec fn act(v: TermModel, effect: VTEffect) -> TermModel {
        v.act(effect)
    }

    fn screen(&mut self) -> (s: &mut Screen) {
        self.screen_mut()
    }

    fn screen_primary(&mut self) -> (s: &mut Screen) {
        &mut self.screen_primary
    }

    fn screen_alternate(&mut self) -> (s: &mut Screen) {
        &mut self.screen_alternate
    }

    fn switch_screen(&mut self, screen: VTScreenChoice) {
        if screen != self.screen_current {
            self.screen_current = screen;
            match screen {
                VTScreenChoice::Primary => self.screen_primary.set_dirty(),
                VTScreenChoice::Alternate => self.screen_alternate.set_dirty(),
            }
        }
    }

    fn set_mode(&mut self, mode: VTMode, enable: bool) {
        self.mode.set(mode, enable);
        // Also copy the mode to the screens for easier access
        self.screen_primary.set_mode(mode, enable);
        self.screen_alternate.set_mode(mode, enable);
    }

    fn report_request(&mut self, report: VTReport) {
        reports_push(&mut self.report_requests, report);
    }

    fn bell(&mut self) {
        self.bell = true;
    }
}

/// A terminal: parser, state and input encoder.
#[derive(Debug)]
pub struct Term {
    parser: VTParser,
    state: TermState,
    input: VTInput,
}

impl Term {
    pub closed spec fn wf(&self) -> bool {
        self.parser.wf() && self.state.wf()
    }

    /// The terminal's state as a mathematical value.
    pub closed spec fn state_model(&self) -> TermModel {
        self.state@
    }

    /// The terminal's parser as a mathematical value.
    pub closed spec fn parser_model(&self) -> crate::parser::ParserModel {
        self.parser@
    }

    pub fn new() -> (t: Term)
        ensures
            t.wf(),
            t.state_model() == TermModel::initial(),
            t.parser_model() == crate::parser::ParserModel::initial(),
    {
        Term { parser: VTParser::new(), state: TermState::new(), input: VTInput }
    }

    /// Feeds output of the program in the terminal to the terminal: the
    /// parser takes it in, and the state ends where the effects of the bytes,
    /// applied in order, lead.
    pub fn write(&mut self, data: &[u8])
        requires
            old(self).wf(),
        ensures
            final(self).wf(),
            final(self).parser_model() == crate::parser::spec_run(
                old(self).parser_model(),
                data@,
            ).0,
            final(self).state_model() == crate::vt::apply_effects::<TermState>(
                old(self).state_model(),
                crate::parser::spec_run(old(self).parser_model(), data@).1,
            ),
    {
        self.parser.input(data, &mut self.state);
    }

    /// Encodes an input event for the program in the terminal, in the modes
    /// that are set. See `VTInput::input`.
    pub fn input(&self, input: InputData, buffer: &mut [u8]) -> (r: Result<usize, ()>)
        ensures
            crate::input::written(
                old(buffer)@,
                final(buffer)@,
                crate::input::spec_input(input, self.state_model().mode),
                r,
            ),
    {
        self.input.input(input, self.state.mode(), buffer)
    }

    /// Encodes the answer to a report request. See `VTInput::report_answer`.
    pub fn report_answer(&self, report: VTReport, buffer: &mut [u8]) -> (r: Result<usize, ()>)
        requires
            self.wf(),
        ensures
            crate::input::written(
                old(buffer)@,
                final(buffer)@,
                crate::input::spec_report(
                    report,
                    self.state_model().screen_at(VTTarget::Current).cursor,
                ),
                r,
            ),
    {
        self.input.report_answer(self.state.screen(), report, buffer)
    }

    /// The terminal's state.
    pub fn state(&self) -> (s: &TermState)
        requires
            self.wf(),
        ensures
            s.wf(),
            s@ == self.state_model(),
    {
        &self.state
    }

    /// The terminal's state, to change it.
    pub fn state_mut(&mut self) -> (s: &mut TermState)
        requires
            old(self).wf(),
        ensures
            s.wf(),
            s@ == old(self).state_model(),
            final(s).wf() ==> final(self).wf(),
            final(self).state_model() == final(s)@,
            final(self).parser_model() == old(self).parser_model(),
    {
        &mut self.state
    }
}

} // verus!
