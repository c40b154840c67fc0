//! Keyboard and mouse state of a window, and the key events it produces.
use vstd::prelude::*;
use std::collections::VecDeque;

verus! {

/// A key press turned into text for the application.
#[derive(Clone, Debug)]
pub struct KeyEvent {
    pub keycode: u32,
    pub characters: String,
    pub modifiers: u32,
    pub pressed: bool,
}

/// Modifier bit of the Super key.
pub const MOD_SUPER: u32 = 0x08;

/// Keyboard focus, modifier state and pending key events of a window.
pub struct InputHandler {
    key_buffer: VecDeque<KeyEvent>,
    mouse_x: i32,
    mouse_y: i32,
    mouse_buttons: u32,
    modifiers: u32,
    mouse_reporting: bool,
    has_focus: bool,
}

/// Abstract state of an [`InputHandler`].
pub struct InputModel {
    pub key_buffer: Seq<KeyEvent>,
    pub mouse_x: i32,
    pub mouse_y: i32,
    pub mouse_buttons: u32,
    pub modifiers: u32,
    pub mouse_reporting: bool,
    pub has_focus: bool,
}

impl View for InputHandler {
    type V = InputModel;

    closed spec fn view(&self) -> InputModel {
        InputModel {
            key_buffer: self.key_buffer@,
            mouse_x: self.mouse_x,
            mouse_y: self.mouse_y,
            mouse_buttons: self.mouse_buttons,
            modifiers: self.modifiers,
            mouse_reporting: self.mouse_reporting,
            has_focus: self.has_focus,
        }
    }
}

/// A pressed key that produced the character `ch` with `modifiers` held.
pub open spec fn char_event_ok(e: KeyEvent, ch: char, modifiers: u32) -> bool {
    &&& e.keycode == 0
    &&& e.characters@ == seq![ch]
    &&& e.modifiers == modifiers
    &&& e.pressed
}

impl InputHandler {
    /// Focused, no modifiers, mouse at the origin, no pending events.
    pub fn new() -> (h: Self)
        ensures
            h@ == (InputModel {
                key_buffer: Seq::empty(),
                mouse_x: 0,
                mouse_y: 0,
                mouse_buttons: 0,
                modifiers: 0,
                mouse_reporting: false,
                has_focus: true,
            }),
    {
        InputHandler {
            key_buffer: VecDeque::new(),
            mouse_x: 0,
            mouse_y: 0,
            mouse_buttons: 0,
            modifiers: 0,
            mouse_reporting: false,
            has_focus: true,
        }
    }

    pub fn set_focus(&mut self, focus: bool)
        ensures
            final(self)@ == (InputModel { has_focus: focus, ..old(self)@ }),
    {
        self.has_focus = focus;
    }

    pub fn has_focus(&self) -> (b: bool)
        ensures
            b == self@.has_focus,
    {
        self.has_focus
    }

    pub fn set_modifiers(&mut self, modifiers: u32)
        ensures
            final(self)@ == (InputModel { modifiers, ..old(self)@ }),
    {
        self.modifiers = modifiers;
    }

    pub fn get_modifiers(&self) -> (m: u32)
        ensures
            m == self@.modifiers,
    {
        self.modifiers
    }

    /// The Super modifier bit is set.
    pub fn is_super_pressed(&self) -> (b: bool)
        ensures
            b == (self@.modifiers & MOD_SUPER != 0),
    {
        (self.modifiers & MOD_SUPER) != 0
    }

    /// The key event for a physical key: `key_code` is the key's code (`None`
    /// for a key the windowing system could not identify). Only a pressed,
    /// identified key of a focused window gives an event, with no characters.
    pub fn handle_key_code(&mut self, key_code: Option<u32>, pressed: bool) -> (e: Option<KeyEvent>)
        ensures
            final(self)@ == old(self)@,
            (old(self)@.has_focus && pressed && key_code is Some) <==> e is Some,
            e matches Some(ev) ==> ev.keycode == key_code->0 && ev.characters@ == Seq::<char>::empty()
                && ev.modifiers == old(self)@.modifiers && ev.pressed,
    {
        if !self.has_focus {
            return None;
        }
        if pressed {
            if let Some(code) = key_code {
                return Some(KeyEvent { keycode: code, characters: String::new(), modifiers: self.modifiers, pressed: true });
            }
        }
        None
    }

    /// The key event for a typed character, with the current modifiers.
    pub fn handle_char(&mut self, ch: char) -> (e: KeyEvent)
        ensures
            char_event_ok(e, ch, old(self)@.modifiers),
            final(self)@ == old(self)@,
    {
        let mut characters = String::new();
        characters.push(ch);
        KeyEvent { keycode: 0, characters, modifiers: self.modifiers, pressed: true }
    }

    /// Same as [`InputHandler::handle_char`], for characters taken from physical keys.
    pub fn handle_physical_char(&mut self, ch: char) -> (e: KeyEvent)
        ensures
            char_event_ok(e, ch, old(self)@.modifiers),
            final(self)@ == old(self)@,
    {
        let mut characters = String::new();
        characters.push(ch);
        KeyEvent { keycode: 0, characters, modifiers: self.modifiers, pressed: true }
    }

    /// The oldest pending key event.
    pub fn pop_event(&mut self) -> (e: Option<KeyEvent>)
        ensures
            match e {
                Some(k) => old(self)@.key_buffer.len() > 0 && k == old(self)@.key_buffer[0]
                    && final(self)@ == (InputModel { key_buffer: old(self)@.key_buffer.drop_first(), ..old(self)@ }),
                None => old(self)@.key_buffer.len() == 0 && final(self)@ == old(self)@,
            },
    {
        let e = self.key_buffer.pop_front();
        proof {
            if old(self)@.key_buffer.len() > 0 {
                assert(old(self)@.key_buffer.subrange(1, old(self)@.key_buffer.len() as int)
                    =~= old(self)@.key_buffer.drop_first());
            }
        }
        e
    }

    /// Drops the pending key events.
    pub fn clear(&mut self)
        ensures
            final(self)@ == (InputModel { key_buffer: Seq::empty(), ..old(self)@ }),
    {
        self.key_buffer.clear();
    }

    pub fn set_mouse_reporting(&mut self, enabled: bool)
        ensures
            final(self)@ == (InputModel { mouse_reporting: enabled, ..old(self)@ }),
    {
        self.mouse_reporting = enabled;
    }

    pub fn mouse_position(&self) -> (p: (i32, i32))
        ensures
            p == (self@.mouse_x, self@.mouse_y),
    {
        (self.mouse_x, self.mouse_y)
    }
}

} // verus!
