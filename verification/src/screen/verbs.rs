//! The screen as an implementor of `VTScreen`.

use super::Screen;
use crate::screen_model::ScreenModel;
use crate::vt::{VTCharset, VTColor, VTErase, VTMode, VTRendition, VTScreen, VTVerb};
use vstd::prelude::*;

verus! {

impl VTScreen for Screen {
    type V = ScreenModel;

    open spec fn model(&self) -> ScreenModel {
        self@
    }

    open spec fn inv(&self) -> bool {
        self.wf()
    }

    open spec fn act(v: ScreenModel, verb: VTVerb) -> ScreenModel {
        v.act(verb)
    }

    fn put_char(&mut self, ch: char) {
        Screen::put_char(self, ch)
    }

    fn put_chars(&mut self, num: u32) {
        Screen::put_chars(self, num)
    }

    fn newline(&mut self) {
        Screen::newline(self)
    }

    fn index(&mut self, forward: bool) {
        Screen::index(self, forward)
    }

    fn next_line(&mut self) {
        Screen::next_line(self)
    }

    fn erase(&mut self, erase: VTErase) {
        Screen::erase(self, erase)
    }

    fn tab(&mut self, tabs: i32) {
        Screen::tab(self, tabs)
    }

    fn tab_set(&mut self, tab: bool) {
        Screen::tab_set(self, tab)
    }

    fn tabs_clear(&mut self) {
        Screen::tabs_clear(self)
    }

    fn reset(&mut self) {
        Screen::reset(self)
    }

    fn resize(&mut self, cols: u32, rows: u32) {
        self.resize_to(cols, rows)
    }

    fn scroll(&mut self, num: i32) {
        Screen::scroll(self, num)
    }

    fn scroll_at_cursor(&mut self, num: i32) {
        Screen::scroll_at_cursor(self, num)
    }

    fn set_scroll_region(&mut self, top: u32, bottom: u32) {
        Screen::set_scroll_region(self, top, bottom)
    }

    fn set_mode(&mut self, mode: VTMode, enable: bool) {
        Screen::set_mode(self, mode, enable)
    }

    fn set_rendition(&mut self, rend: VTRendition, enable: bool) {
        Screen::set_rendition(self, rend, enable)
    }

    fn set_fg(&mut self, color: VTColor) {
        Screen::set_fg(self, color)
    }

    fn set_bg(&mut self, color: VTColor) {
        Screen::set_bg(self, color)
    }

    fn charset_use(&mut self, slot: u32) {
        Screen::charset_use(self, slot)
    }

    fn charset_designate(&mut self, slot: u32, charset: VTCharset) {
        Screen::charset_designate(self, slot, charset)
    }

    fn cursor_set(&mut self, x: Option<u32>, y: Option<u32>) {
        Screen::cursor_set(self, x, y)
    }

    fn cursor_move(&mut self, x: i32, y: i32) {
        Screen::cursor_move(self, x, y)
    }

    fn cursor_save(&mut self) {
        Screen::cursor_save(self)
    }

    fn cursor_load(&mut self) {
        Screen::cursor_load(self)
    }

    fn alignment_test(&mut self) {
        Screen::alignment_test(self)
    }
}

} // verus!
