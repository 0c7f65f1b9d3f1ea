//! Turning the keyboard's key events into the characters that the console
//! hands to the terminal.
use vstd::prelude::*;
use crate::text::string_push;
use crate::keys::{KeyboardEvent, Modifier, MousePacket, VirtualKeyCode};
use crate::us_keyboard::{us_unicode, USKeymap};

verus! {

/// A message of the input service.
#[derive(Clone, Copy, Debug, PartialEq, Eq, Structural)]
pub enum InputServiceMessage {
    KeyboardEvent(KeyboardEvent),
    MouseEvent(MousePacket),
}

/// The modifier state that the decoder keeps between events.
pub struct ModifierState {
    pub lshift: bool,
    pub rshift: bool,
    pub caps_lock: bool,
    pub num_lock: bool,
}

/// One step of the decoder: shift keys follow their key, caps and num lock
/// toggle when pressed, every other key press types a character under the
/// current state; releases of other keys do nothing.
pub open spec fn decode_step(m: ModifierState, ev: KeyboardEvent) -> (ModifierState, Option<char>) {
    match ev {
        KeyboardEvent::Up(VirtualKeyCode::Modifier(key)) => match key {
            Modifier::LeftShift => (ModifierState { lshift: false, ..m }, None),
            Modifier::RightShift => (ModifierState { rshift: false, ..m }, None),
            _ => (m, None),
        },
        KeyboardEvent::Up(_) => (m, None),
        KeyboardEvent::Down(VirtualKeyCode::Modifier(key)) => match key {
            Modifier::LeftShift => (ModifierState { lshift: true, ..m }, None),
            Modifier::RightShift => (ModifierState { rshift: true, ..m }, None),
            Modifier::CapsLock => (ModifierState { caps_lock: !m.caps_lock, ..m }, None),
            Modifier::NumLock => (ModifierState { num_lock: !m.num_lock, ..m }, None),
            _ => (m, None),
        },
        KeyboardEvent::Down(key) => (
            m,
            Some(us_unicode(key, m.lshift, m.rshift, m.caps_lock, m.num_lock)),
        ),
    }
}

/// Decodes keyboard events into characters, collecting them until the
/// console hands them on.
pub struct KBInputDecoder {
    lshift: bool,
    rshift: bool,
    caps_lock: bool,
    num_lock: bool,
    str_buf: String,
}

impl KBInputDecoder {
    /// The modifier state.
    pub closed spec fn modifiers(&self) -> ModifierState {
        ModifierState {
            lshift: self.lshift,
            rshift: self.rshift,
            caps_lock: self.caps_lock,
            num_lock: self.num_lock,
        }
    }

    /// The characters collected since the buffer was last cleared.
    pub closed spec fn buffered(&self) -> Seq<char> {
        self.str_buf@
    }

    /// A decoder with no modifier held or locked and nothing buffered.
    pub fn new() -> (d: Self)
        ensures
            d.modifiers() == (ModifierState {
                lshift: false,
                rshift: false,
                caps_lock: false,
                num_lock: false,
            }),
            d.buffered() == Seq::<char>::empty(),
    {
        Self {
            lshift: false,
            rshift: false,
            caps_lock: false,
            num_lock: false,
            str_buf: String::new(),
        }
    }

    /// Feeds one message; returns the character that it types, if any.
    /// Only keyboard messages are accepted.
    pub fn feed(&mut self, ev: InputServiceMessage) -> (c: Option<char>)
        requires
            ev is KeyboardEvent,
        ensures
            (final(self).modifiers(), c) == decode_step(old(self).modifiers(), ev->KeyboardEvent_0),
            final(self).buffered() == old(self).buffered(),
    {
        match ev {
            InputServiceMessage::KeyboardEvent(scan_code) => {
                match scan_code {
                    KeyboardEvent::Up(VirtualKeyCode::Modifier(key)) => match key {
                        Modifier::LeftShift => self.lshift = false,
                        Modifier::RightShift => self.rshift = false,
                        _ => {},
                    },
                    KeyboardEvent::Up(_) => {},
                    KeyboardEvent::Down(VirtualKeyCode::Modifier(key)) => match key {
                        Modifier::LeftShift => self.lshift = true,
                        Modifier::RightShift => self.rshift = true,
                        Modifier::CapsLock => self.caps_lock = !self.caps_lock,
                        Modifier::NumLock => self.num_lock = !self.num_lock,
                        _ => {},
                    },
                    KeyboardEvent::Down(letter) => {
                        return Some(
                            USKeymap::get_unicode(
                                letter,
                                self.lshift,
                                self.rshift,
                                self.caps_lock,
                                self.num_lock,
                            ),
                        );
                    },
                }
            },
            InputServiceMessage::MouseEvent(_) => {},
        }
        None
    }

    /// Empties the buffer at the start of a read.
    pub fn clear_buffer(&mut self)
        ensures
            final(self).modifiers() == old(self).modifiers(),
            final(self).buffered() == Seq::<char>::empty(),
    {
        self.str_buf = String::new();
    }

    /// Feeds one message read from the keyboard channel and appends the
    /// character that it types to the buffer.
    pub fn feed_buffered(&mut self, ev: InputServiceMessage)
        requires
            ev is KeyboardEvent,
        ensures
            ({
                let (m, c) = decode_step(old(self).modifiers(), ev->KeyboardEvent_0);
                &&& final(self).modifiers() == m
                &&& final(self).buffered() == match c {
                    Some(ch) => old(self).buffered().push(ch),
                    None => old(self).buffered(),
                }
            }),
    {
        let c = self.feed(ev);
        match c {
            Some(ch) => string_push(&mut self.str_buf, ch),
            None => {},
        }
    }

    /// Whether nothing has been buffered: a read then waits for more events.
    pub fn buffer_is_empty(&self) -> (b: bool)
        ensures
            b == (self.buffered().len() == 0),
    {
        self.str_buf.as_str().is_empty()
    }

    /// The characters buffered so far.
    pub fn buffer(&self) -> (s: &str)
        ensures
            s@ == self.buffered(),
    {
        self.str_buf.as_str()
    }
}

/// Pressing and releasing a shift key leaves the modifier state as it was
/// before, whenever that shift key was not already held.
pub proof fn lemma_shift_press_release_restores(m: ModifierState, key: Modifier)
    requires
        key == Modifier::LeftShift ==> !m.lshift,
        key == Modifier::RightShift ==> !m.rshift,
        key == Modifier::LeftShift || key == Modifier::RightShift,
    ensures
        ({
            let (m1, c1) = decode_step(m, KeyboardEvent::Down(VirtualKeyCode::Modifier(key)));
            let (m2, c2) = decode_step(m1, KeyboardEvent::Up(VirtualKeyCode::Modifier(key)));
            &&& m2 == m
            &&& c1 is None
            &&& c2 is None
        }),
{
}

/// Pressing a lock key twice (with any releases between) restores the lock state.
pub proof fn lemma_lock_twice_restores(m: ModifierState, key: Modifier)
    requires
        key == Modifier::CapsLock || key == Modifier::NumLock,
    ensures
        ({
            let press = KeyboardEvent::Down(VirtualKeyCode::Modifier(key));
            let release = KeyboardEvent::Up(VirtualKeyCode::Modifier(key));
            let (m1, _) = decode_step(m, press);
            let (m2, _) = decode_step(m1, release);
            let (m3, _) = decode_step(m2, press);
            let (m4, _) = decode_step(m3, release);
            m4 == m
        }),
{
}

} // verus!
