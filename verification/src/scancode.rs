//! Decoding of PS/2 scancode set 2 into key events.
use vstd::prelude::*;
use crate::keys::{
    Control, Function, KeyboardEvent, Letter, Misc, Modifier, Number, Numpad, VirtualKeyCode,
};

verus! {

/// The prefix byte of a key release.
pub const RELEASE_CODE: u8 = 0xF0;

/// The prefix byte of an extended key.
pub const EXTENDED_CODE: u8 = 0xE0;

/// The byte a keyboard sends to acknowledge a command.
pub const ACK_CODE: u8 = 0xFA;

/// A decoder of bytes, one at a time, into key events.
pub trait Scancode {
    fn add_byte(&mut self, code: u8) -> Option<KeyboardEvent>;
}

/// Which prefixes the decoder has seen since the last complete key.
#[derive(Clone, Copy, Debug, PartialEq, Eq, Structural)]
pub enum State {
    Start,
    Release,
    Extended,
    ExtendedRelease,
}

/// The key that a plain (not extended) set 2 scancode stands for.
pub open spec fn set2_key(code: u8) -> Option<VirtualKeyCode> {
    match code {
        0x01 => Some(VirtualKeyCode::Function(Function::F9)),
        0x03 => Some(VirtualKeyCode::Function(Function::F5)),
        0x04 => Some(VirtualKeyCode::Function(Function::F3)),
        0x05 => Some(VirtualKeyCode::Function(Function::F1)),
        0x06 => Some(VirtualKeyCode::Function(Function::F2)),
        0x07 => Some(VirtualKeyCode::Function(Function::F12)),
        0x09 => Some(VirtualKeyCode::Function(Function::F10)),
        0x0A => Some(VirtualKeyCode::Function(Function::F8)),
        0x0B => Some(VirtualKeyCode::Function(Function::F6)),
        0x0C => Some(VirtualKeyCode::Function(Function::F4)),
        0x0D => Some(VirtualKeyCode::Control(Control::Tab)),
        0x0E => Some(VirtualKeyCode::Misc(Misc::BackTick)),
        0x11 => Some(VirtualKeyCode::Modifier(Modifier::LeftAlt)),
        0x12 => Some(VirtualKeyCode::Modifier(Modifier::LeftShift)),
        0x14 => Some(VirtualKeyCode::Modifier(Modifier::LeftControl)),
        0x15 => Some(VirtualKeyCode::Letter(Letter::Q)),
        0x16 => Some(VirtualKeyCode::Number(Number::N1)),
        0x1A => Some(VirtualKeyCode::Letter(Letter::Z)),
        0x1B => Some(VirtualKeyCode::Letter(Letter::S)),
        0x1C => Some(VirtualKeyCode::Letter(Letter::A)),
        0x1D => Some(VirtualKeyCode::Letter(Letter::W)),
        0x1E => Some(VirtualKeyCode::Number(Number::N2)),
        0x21 => Some(VirtualKeyCode::Letter(Letter::C)),
        0x22 => Some(VirtualKeyCode::Letter(Letter::X)),
        0x23 => Some(VirtualKeyCode::Letter(Letter::D)),
        0x24 => Some(VirtualKeyCode::Letter(Letter::E)),
        0x25 => Some(VirtualKeyCode::Number(Number::N4)),
        0x26 => Some(VirtualKeyCode::Number(Number::N3)),
        0x29 => Some(VirtualKeyCode::Control(Control::Space)),
        0x2A => Some(VirtualKeyCode::Letter(Letter::V)),
        0x2B => Some(VirtualKeyCode::Letter(Letter::F)),
        0x2C => Some(VirtualKeyCode::Letter(Letter::T)),
        0x2D => Some(VirtualKeyCode::Letter(Letter::R)),
        0x2E => Some(VirtualKeyCode::Number(Number::N5)),
        0x31 => Some(VirtualKeyCode::Letter(Letter::N)),
        0x32 => Some(VirtualKeyCode::Letter(Letter::B)),
        0x33 => Some(VirtualKeyCode::Letter(Letter::H)),
        0x34 => Some(VirtualKeyCode::Letter(Letter::G)),
        0x35 => Some(VirtualKeyCode::Letter(Letter::Y)),
        0x36 => Some(VirtualKeyCode::Number(Number::N6)),
        0x3A => Some(VirtualKeyCode::Letter(Letter::M)),
        0x3B => Some(VirtualKeyCode::Letter(Letter::J)),
        0x3C => Some(VirtualKeyCode::Letter(Letter::U)),
        0x3D => Some(VirtualKeyCode::Number(Number::N7)),
        0x3E => Some(VirtualKeyCode::Number(Number::N8)),
        0x41 => Some(VirtualKeyCode::Misc(Misc::Comma)),
        0x42 => Some(VirtualKeyCode::Letter(Letter::K)),
        0x43 => Some(VirtualKeyCode::Letter(Letter::I)),
        0x44 => Some(VirtualKeyCode::Letter(Letter::O)),
        0x45 => Some(VirtualKeyCode::Number(Number::N0)),
        0x46 => Some(VirtualKeyCode::Number(Number::N9)),
        0x49 => Some(VirtualKeyCode::Misc(Misc::Period)),
        0x4A => Some(VirtualKeyCode::Misc(Misc::ForwardSlash)),
        0x4B => Some(VirtualKeyCode::Letter(Letter::L)),
        0x4C => Some(VirtualKeyCode::Misc(Misc::SemiColon)),
        0x4D => Some(VirtualKeyCode::Letter(Letter::P)),
        0x4E => Some(VirtualKeyCode::Misc(Misc::Hyphen)),
        0x52 => Some(VirtualKeyCode::Misc(Misc::Quote)),
        0x54 => Some(VirtualKeyCode::Misc(Misc::LeftBracket)),
        0x55 => Some(VirtualKeyCode::Misc(Misc::Equals)),
        0x58 => Some(VirtualKeyCode::Modifier(Modifier::CapsLock)),
        0x59 => Some(VirtualKeyCode::Modifier(Modifier::RightShift)),
        0x5A => Some(VirtualKeyCode::Control(Control::Enter)),
        0x5B => Some(VirtualKeyCode::Misc(Misc::RightBracket)),
        0x5D => Some(VirtualKeyCode::Misc(Misc::BackSlash)),
        0x66 => Some(VirtualKeyCode::Control(Control::Backspace)),
        0x69 => Some(VirtualKeyCode::Numpad(Numpad::N1)),
        0x6B => Some(VirtualKeyCode::Numpad(Numpad::N4)),
        0x6C => Some(VirtualKeyCode::Numpad(Numpad::N7)),
        0x70 => Some(VirtualKeyCode::Numpad(Numpad::N0)),
        0x71 => Some(VirtualKeyCode::Numpad(Numpad::Period)),
        0x72 => Some(VirtualKeyCode::Numpad(Numpad::N2)),
        0x73 => Some(VirtualKeyCode::Numpad(Numpad::N5)),
        0x74 => Some(VirtualKeyCode::Numpad(Numpad::N6)),
        0x75 => Some(VirtualKeyCode::Numpad(Numpad::N8)),
        0x76 => Some(VirtualKeyCode::Control(Control::Escape)),
        0x77 => Some(VirtualKeyCode::Modifier(Modifier::NumLock)),
        0x78 => Some(VirtualKeyCode::Function(Function::F11)),
        0x79 => Some(VirtualKeyCode::Numpad(Numpad::Add)),
        0x7A => Some(VirtualKeyCode::Numpad(Numpad::N3)),
        0x7B => Some(VirtualKeyCode::Numpad(Numpad::Sub)),
        0x7C => Some(VirtualKeyCode::Numpad(Numpad::Mul)),
        0x7D => Some(VirtualKeyCode::Numpad(Numpad::N9)),
        0x7E => Some(VirtualKeyCode::Modifier(Modifier::ScrollLock)),
        0x83 => Some(VirtualKeyCode::Function(Function::F7)),
        0xE1 => Some(VirtualKeyCode::Control(Control::PauseBreak)),
        _ => None,
    }
}

/// The key that an extended (0xE0-prefixed) set 2 scancode stands for.
pub open spec fn set2_extended_key(code: u8) -> Option<VirtualKeyCode> {
    match code {
        0x11 => Some(VirtualKeyCode::Modifier(Modifier::RightAlt)),
        0x14 => Some(VirtualKeyCode::Modifier(Modifier::RightControl)),
        0x1F => Some(VirtualKeyCode::Modifier(Modifier::LeftWindows)),
        0x27 => Some(VirtualKeyCode::Modifier(Modifier::RightWindows)),
        0x2F => Some(VirtualKeyCode::Misc(Misc::MenuKey)),
        0x4A => Some(VirtualKeyCode::Numpad(Numpad::Div)),
        0x5A => Some(VirtualKeyCode::Numpad(Numpad::Enter)),
        0x69 => Some(VirtualKeyCode::Control(Control::End)),
        0x6B => Some(VirtualKeyCode::Control(Control::ArrowLeft)),
        0x6C => Some(VirtualKeyCode::Control(Control::Home)),
        0x70 => Some(VirtualKeyCode::Control(Control::Insert)),
        0x71 => Some(VirtualKeyCode::Control(Control::Delete)),
        0x72 => Some(VirtualKeyCode::Control(Control::ArrowDown)),
        0x74 => Some(VirtualKeyCode::Control(Control::ArrowRight)),
        0x75 => Some(VirtualKeyCode::Control(Control::ArrowUp)),
        0x7A => Some(VirtualKeyCode::Control(Control::PageDown)),
        0x7D => Some(VirtualKeyCode::Control(Control::PageUp)),
        _ => None,
    }
}

/// A key going down.
pub open spec fn down(key: Option<VirtualKeyCode>) -> Option<KeyboardEvent> {
    match key {
        Some(k) => Some(KeyboardEvent::Down(k)),
        None => None,
    }
}

/// A key coming up.
pub open spec fn up(key: Option<VirtualKeyCode>) -> Option<KeyboardEvent> {
    match key {
        Some(k) => Some(KeyboardEvent::Up(k)),
        None => None,
    }
}

/// One step of the set 2 decoder: the next state and the event, if any.
/// Acknowledge bytes are ignored in every state. A release prefix is
/// remembered, an extended prefix likewise; any other byte completes a key
/// and returns the decoder to `Start`, whether or not the key is known.
pub open spec fn set2_step(state: State, code: u8) -> (State, Option<KeyboardEvent>) {
    if code == ACK_CODE {
        (state, None)
    } else {
        match state {
            State::Start => if code == RELEASE_CODE {
                (State::Release, None)
            } else if code == EXTENDED_CODE {
                (State::Extended, None)
            } else {
                (State::Start, down(set2_key(code)))
            },
            State::Release => (State::Start, up(set2_key(code))),
            State::Extended => if code == RELEASE_CODE {
                (State::ExtendedRelease, None)
            } else {
                (State::Start, down(set2_extended_key(code)))
            },
            State::ExtendedRelease => (State::Start, up(set2_extended_key(code))),
        }
    }
}

/// The decoder for PS/2 scancode set 2.
pub struct ScancodeSet2 {
    state: State,
}

impl ScancodeSet2 {
    /// The prefixes that the decoder has seen.
    pub closed spec fn state(&self) -> State {
        self.state
    }

    /// A decoder that has seen no prefix.
    pub fn new() -> (s: Self)
        ensures
            s.state() == State::Start,
    {
        Self { state: State::Start }
    }

    /// The key of a plain scancode.
    fn map_scancode(&self, code: u8) -> (key: Option<VirtualKeyCode>)
        ensures
            key == set2_key(code),
    {
        match code {
            0x01 => Some(VirtualKeyCode::Function(Function::F9)),
            0x03 => Some(VirtualKeyCode::Function(Function::F5)),
            0x04 => Some(VirtualKeyCode::Function(Function::F3)),
            0x05 => Some(VirtualKeyCode::Function(Function::F1)),
            0x06 => Some(VirtualKeyCode::Function(Function::F2)),
            0x07 => Some(VirtualKeyCode::Function(Function::F12)),
            0x09 => Some(VirtualKeyCode::Function(Function::F10)),
            0x0A => Some(VirtualKeyCode::Function(Function::F8)),
            0x0B => Some(VirtualKeyCode::Function(Function::F6)),
            0x0C => Some(VirtualKeyCode::Function(Function::F4)),
            0x0D => Some(VirtualKeyCode::Control(Control::Tab)),
            0x0E => Some(VirtualKeyCode::Misc(Misc::BackTick)),
            0x11 => Some(VirtualKeyCode::Modifier(Modifier::LeftAlt)),
            0x12 => Some(VirtualKeyCode::Modifier(Modifier::LeftShift)),
            0x14 => Some(VirtualKeyCode::Modifier(Modifier::LeftControl)),
            0x15 => Some(VirtualKeyCode::Letter(Letter::Q)),
            0x16 => Some(VirtualKeyCode::Number(Number::N1)),
            0x1A => Some(VirtualKeyCode::Letter(Letter::Z)),
            0x1B => Some(VirtualKeyCode::Letter(Letter::S)),
            0x1C => Some(VirtualKeyCode::Letter(Letter::A)),
            0x1D => Some(VirtualKeyCode::Letter(Letter::W)),
            0x1E => Some(VirtualKeyCode::Number(Number::N2)),
            0x21 => Some(VirtualKeyCode::Letter(Letter::C)),
            0x22 => Some(VirtualKeyCode::Letter(Letter::X)),
            0x23 => Some(VirtualKeyCode::Letter(Letter::D)),
            0x24 => Some(VirtualKeyCode::Letter(Letter::E)),
            0x25 => Some(VirtualKeyCode::Number(Number::N4)),
            0x26 => Some(VirtualKeyCode::Number(Number::N3)),
            0x29 => Some(VirtualKeyCode::Control(Control::Space)),
            0x2A => Some(VirtualKeyCode::Letter(Letter::V)),
            0x2B => Some(VirtualKeyCode::Letter(Letter::F)),
            0x2C => Some(VirtualKeyCode::Letter(Letter::T)),
            0x2D => Some(VirtualKeyCode::Letter(Letter::R)),
            0x2E => Some(VirtualKeyCode::Number(Number::N5)),
            0x31 => Some(VirtualKeyCode::Letter(Letter::N)),
            0x32 => Some(VirtualKeyCode::Letter(Letter::B)),
            0x33 => Some(VirtualKeyCode::Letter(Letter::H)),
            0x34 => Some(VirtualKeyCode::Letter(Letter::G)),
            0x35 => Some(VirtualKeyCode::Letter(Letter::Y)),
            0x36 => Some(VirtualKeyCode::Number(Number::N6)),
            0x3A => Some(VirtualKeyCode::Letter(Letter::M)),
            0x3B => Some(VirtualKeyCode::Letter(Letter::J)),
            0x3C => Some(VirtualKeyCode::Letter(Letter::U)),
            0x3D => Some(VirtualKeyCode::Number(Number::N7)),
            0x3E => Some(VirtualKeyCode::Number(Number::N8)),
            0x41 => Some(VirtualKeyCode::Misc(Misc::Comma)),
            0x42 => Some(VirtualKeyCode::Letter(Letter::K)),
            0x43 => Some(VirtualKeyCode::Letter(Letter::I)),
            0x44 => Some(VirtualKeyCode::Letter(Letter::O)),
            0x45 => Some(VirtualKeyCode::Number(Number::N0)),
            0x46 => Some(VirtualKeyCode::Number(Number::N9)),
            0x49 => Some(VirtualKeyCode::Misc(Misc::Period)),
            0x4A => Some(VirtualKeyCode::Misc(Misc::ForwardSlash)),
            0x4B => Some(VirtualKeyCode::Letter(Letter::L)),
            0x4C => Some(VirtualKeyCode::Misc(Misc::SemiColon)),
            0x4D => Some(VirtualKeyCode::Letter(Letter::P)),
            0x4E => Some(VirtualKeyCode::Misc(Misc::Hyphen)),
            0x52 => Some(VirtualKeyCode::Misc(Misc::Quote)),
            0x54 => Some(VirtualKeyCode::Misc(Misc::LeftBracket)),
            0x55 => Some(VirtualKeyCode::Misc(Misc::Equals)),
            0x58 => Some(VirtualKeyCode::Modifier(Modifier::CapsLock)),
            0x59 => Some(VirtualKeyCode::Modifier(Modifier::RightShift)),
            0x5A => Some(VirtualKeyCode::Control(Control::Enter)),
            0x5B => Some(VirtualKeyCode::Misc(Misc::RightBracket)),
            0x5D => Some(VirtualKeyCode::Misc(Misc::BackSlash)),
            0x66 => Some(VirtualKeyCode::Control(Control::Backspace)),
            0x69 => Some(VirtualKeyCode::Numpad(Numpad::N1)),
            0x6B => Some(VirtualKeyCode::Numpad(Numpad::N4)),
            0x6C => Some(VirtualKeyCode::Numpad(Numpad::N7)),
            0x70 => Some(VirtualKeyCode::Numpad(Numpad::N0)),
            0x71 => Some(VirtualKeyCode::Numpad(Numpad::Period)),
            0x72 => Some(VirtualKeyCode::Numpad(Numpad::N2)),
            0x73 => Some(VirtualKeyCode::Numpad(Numpad::N5)),
            0x74 => Some(VirtualKeyCode::Numpad(Numpad::N6)),
            0x75 => Some(VirtualKeyCode::Numpad(Numpad::N8)),
            0x76 => Some(VirtualKeyCode::Control(Control::Escape)),
            0x77 => Some(VirtualKeyCode::Modifier(Modifier::NumLock)),
            0x78 => Some(VirtualKeyCode::Function(Function::F11)),
            0x79 => Some(VirtualKeyCode::Numpad(Numpad::Add)),
            0x7A => Some(VirtualKeyCode::Numpad(Numpad::N3)),
            0x7B => Some(VirtualKeyCode::Numpad(Numpad::Sub)),
            0x7C => Some(VirtualKeyCode::Numpad(Numpad::Mul)),
            0x7D => Some(VirtualKeyCode::Numpad(Numpad::N9)),
            0x7E => Some(VirtualKeyCode::Modifier(Modifier::ScrollLock)),
            0x83 => Some(VirtualKeyCode::Function(Function::F7)),
            0xE1 => Some(VirtualKeyCode::Control(Control::PauseBreak)),
            _ => None,
        }
    }

    /// The key of an extended scancode.
    fn map_extened_scancode(&self, code: u8) -> (key: Option<VirtualKeyCode>)
        ensures
            key == set2_extended_key(code),
    {
        match code {
            0x11 => Some(VirtualKeyCode::Modifier(Modifier::RightAlt)),
            0x14 => Some(VirtualKeyCode::Modifier(Modifier::RightControl)),
            0x1F => Some(VirtualKeyCode::Modifier(Modifier::LeftWindows)),
            0x27 => Some(VirtualKeyCode::Modifier(Modifier::RightWindows)),
            0x2F => Some(VirtualKeyCode::Misc(Misc::MenuKey)),
            0x4A => Some(VirtualKeyCode::Numpad(Numpad::Div)),
            0x5A => Some(VirtualKeyCode::Numpad(Numpad::Enter)),
            0x69 => Some(VirtualKeyCode::Control(Control::End)),
            0x6B => Some(VirtualKeyCode::Control(Control::ArrowLeft)),
            0x6C => Some(VirtualKeyCode::Control(Control::Home)),
            0x70 => Some(VirtualKeyCode::Control(Control::Insert)),
            0x71 => Some(VirtualKeyCode::Control(Control::Delete)),
            0x72 => Some(VirtualKeyCode::Control(Control::ArrowDown)),
            0x74 => Some(VirtualKeyCode::Control(Control::ArrowRight)),
            0x75 => Some(VirtualKeyCode::Control(Control::ArrowUp)),
            0x7A => Some(VirtualKeyCode::Control(Control::PageDown)),
            0x7D => Some(VirtualKeyCode::Control(Control::PageUp)),
            _ => None,
        }
    }
}

impl Default for ScancodeSet2 {
    fn default() -> (s: Self)
        ensures
            s.state() == State::Start,
    {
        Self::new()
    }
}

impl Scancode for ScancodeSet2 {
    /// Feeds one byte from the keyboard; returns the key event that it
    /// completes, if any.
    fn add_byte(&mut self, code: u8) -> (ev: Option<KeyboardEvent>)
        ensures
            (final(self).state(), ev) == set2_step(old(self).state(), code),
    {
        // If byte is an ack ignore it
        if code == ACK_CODE {
            return None;
        }
        match self.state {
            State::Start => {
                if code == RELEASE_CODE {
                    self.state = State::Release;
                    None
                } else if code == EXTENDED_CODE {
                    self.state = State::Extended;
                    None
                } else {
                    match self.map_scancode(code) {
                        Some(key) => Some(KeyboardEvent::Down(key)),
                        None => None,
                    }
                }
            },
            State::Release => {
                self.state = State::Start;
                match self.map_scancode(code) {
                    Some(key) => Some(KeyboardEvent::Up(key)),
                    None => None,
                }
            },
            State::Extended => {
                if code == RELEASE_CODE {
                    self.state = State::ExtendedRelease;
                    None
                } else {
                    self.state = State::Start;
                    match self.map_extened_scancode(code) {
                        Some(key) => Some(KeyboardEvent::Down(key)),
                        None => None,
                    }
                }
            },
            State::ExtendedRelease => {
                self.state = State::Start;
                match self.map_extened_scancode(code) {
                    Some(key) => Some(KeyboardEvent::Up(key)),
                    None => None,
                }
            },
        }
    }
}

/// An acknowledge byte never changes the decoder's state and never yields an
/// event, whatever prefixes were seen before it.
pub proof fn lemma_ack_is_ignored(state: State)
    ensures
        set2_step(state, ACK_CODE) == (state, None::<KeyboardEvent>),
{
}

/// A key's release sequence (0xF0 then its code) reports the same key coming
/// up that its press sequence (the code alone) reports going down, and both
/// leave the decoder back at `Start`.
pub proof fn lemma_release_mirrors_press(code: u8)
    requires
        code != RELEASE_CODE,
        code != EXTENDED_CODE,
        code != ACK_CODE,
    ensures
        ({
            let (after_press, pressed) = set2_step(State::Start, code);
            let (after_prefix, none) = set2_step(State::Start, RELEASE_CODE);
            let (after_release, released) = set2_step(after_prefix, code);
            &&& after_press == State::Start
            &&& none is None
            &&& after_release == State::Start
            &&& match pressed {
                Some(KeyboardEvent::Down(k)) => released == Some(KeyboardEvent::Up(k)),
                Some(KeyboardEvent::Up(_)) => false,
                None => released is None,
            }
        }),
{
}

/// The same holds of extended keys: 0xE0 0xF0 code releases the key that
/// 0xE0 code pressed.
pub proof fn lemma_extended_release_mirrors_press(code: u8)
    requires
        code != RELEASE_CODE,
        code != ACK_CODE,
    ensures
        ({
            let (s1, _) = set2_step(State::Start, EXTENDED_CODE);
            let (after_press, pressed) = set2_step(s1, code);
            let (s2, _) = set2_step(s1, RELEASE_CODE);
            let (after_release, released) = set2_step(s2, code);
            &&& s1 == State::Extended
            &&& s2 == State::ExtendedRelease
            &&& after_press == State::Start
            &&& after_release == State::Start
            &&& match pressed {
                Some(KeyboardEvent::Down(k)) => released == Some(KeyboardEvent::Up(k)),
                Some(KeyboardEvent::Up(_)) => false,
                None => released is None,
            }
        }),
{
}

/// The plain set 2 code of a key, if it has one: the inverse of `set2_key`.
pub open spec fn set2_code(key: VirtualKeyCode) -> Option<u8> {
    match key {
        VirtualKeyCode::Function(Function::F9) => Some(0x01u8),
        VirtualKeyCode::Function(Function::F5) => Some(0x03u8),
        VirtualKeyCode::Function(Function::F3) => Some(0x04u8),
        VirtualKeyCode::Function(Function::F1) => Some(0x05u8),
        VirtualKeyCode::Function(Function::F2) => Some(0x06u8),
        VirtualKeyCode::Function(Function::F12) => Some(0x07u8),
        VirtualKeyCode::Function(Function::F10) => Some(0x09u8),
        VirtualKeyCode::Function(Function::F8) => Some(0x0Au8),
        VirtualKeyCode::Function(Function::F6) => Some(0x0Bu8),
        VirtualKeyCode::Function(Function::F4) => Some(0x0Cu8),
        VirtualKeyCode::Control(Control::Tab) => Some(0x0Du8),
        VirtualKeyCode::Misc(Misc::BackTick) => Some(0x0Eu8),
        VirtualKeyCode::Modifier(Modifier::LeftAlt) => Some(0x11u8),
        VirtualKeyCode::Modifier(Modifier::LeftShift) => Some(0x12u8),
        VirtualKeyCode::Modifier(Modifier::LeftControl) => Some(0x14u8),
        VirtualKeyCode::Letter(Letter::Q) => Some(0x15u8),
        VirtualKeyCode::Number(Number::N1) => Some(0x16u8),
        VirtualKeyCode::Letter(Letter::Z) => Some(0x1Au8),
        VirtualKeyCode::Letter(Letter::S) => Some(0x1Bu8),
        VirtualKeyCode::Letter(Letter::A) => Some(0x1Cu8),
        VirtualKeyCode::Letter(Letter::W) => Some(0x1Du8),
        VirtualKeyCode::Number(Number::N2) => Some(0x1Eu8),
        VirtualKeyCode::Letter(Letter::C) => Some(0x21u8),
        VirtualKeyCode::Letter(Letter::X) => Some(0x22u8),
        VirtualKeyCode::Letter(Letter::D) => Some(0x23u8),
        VirtualKeyCode::Letter(Letter::E) => Some(0x24u8),
        VirtualKeyCode::Number(Number::N4) => Some(0x25u8),
        VirtualKeyCode::Number(Number::N3) => Some(0x26u8),
        VirtualKeyCode::Control(Control::Space) => Some(0x29u8),
        VirtualKeyCode::Letter(Letter::V) => Some(0x2Au8),
        VirtualKeyCode::Letter(Letter::F) => Some(0x2Bu8),
        VirtualKeyCode::Letter(Letter::T) => Some(0x2Cu8),
        VirtualKeyCode::Letter(Letter::R) => Some(0x2Du8),
        VirtualKeyCode::Number(Number::N5) => Some(0x2Eu8),
        VirtualKeyCode::Letter(Letter::N) => Some(0x31u8),
        VirtualKeyCode::Letter(Letter::B) => Some(0x32u8),
        VirtualKeyCode::Letter(Letter::H) => Some(0x33u8),
        VirtualKeyCode::Letter(Letter::G) => Some(0x34u8),
        VirtualKeyCode::Letter(Letter::Y) => Some(0x35u8),
        VirtualKeyCode::Number(Number::N6) => Some(0x36u8),
        VirtualKeyCode::Letter(Letter::M) => Some(0x3Au8),
        VirtualKeyCode::Letter(Letter::J) => Some(0x3Bu8),
        VirtualKeyCode::Letter(Letter::U) => Some(0x3Cu8),
        VirtualKeyCode::Number(Number::N7) => Some(0x3Du8),
        VirtualKeyCode::Number(Number::N8) => Some(0x3Eu8),
        VirtualKeyCode::Misc(Misc::Comma) => Some(0x41u8),
        VirtualKeyCode::Letter(Letter::K) => Some(0x42u8),
        VirtualKeyCode::Letter(Letter::I) => Some(0x43u8),
        VirtualKeyCode::Letter(Letter::O) => Some(0x44u8),
        VirtualKeyCode::Number(Number::N0) => Some(0x45u8),
        VirtualKeyCode::Number(Number::N9) => Some(0x46u8),
        VirtualKeyCode::Misc(Misc::Period) => Some(0x49u8),
        VirtualKeyCode::Misc(Misc::ForwardSlash) => Some(0x4Au8),
        VirtualKeyCode::Letter(Letter::L) => Some(0x4Bu8),
        VirtualKeyCode::Misc(Misc::SemiColon) => Some(0x4Cu8),
        VirtualKeyCode::Letter(Letter::P) => Some(0x4Du8),
        VirtualKeyCode::Misc(Misc::Hyphen) => Some(0x4Eu8),
        VirtualKeyCode::Misc(Misc::Quote) => Some(0x52u8),
        VirtualKeyCode::Misc(Misc::LeftBracket) => Some(0x54u8),
        VirtualKeyCode::Misc(Misc::Equals) => Some(0x55u8),
        VirtualKeyCode::Modifier(Modifier::CapsLock) => Some(0x58u8),
        VirtualKeyCode::Modifier(Modifier::RightShift) => Some(0x59u8),
        VirtualKeyCode::Control(Control::Enter) => Some(0x5Au8),
        VirtualKeyCode::Misc(Misc::RightBracket) => Some(0x5Bu8),
        VirtualKeyCode::Misc(Misc::BackSlash) => Some(0x5Du8),
        VirtualKeyCode::Control(Control::Backspace) => Some(0x66u8),
        VirtualKeyCode::Numpad(Numpad::N1) => Some(0x69u8),
        VirtualKeyCode::Numpad(Numpad::N4) => Some(0x6Bu8),
        VirtualKeyCode::Numpad(Numpad::N7) => Some(0x6Cu8),
        VirtualKeyCode::Numpad(Numpad::N0) => Some(0x70u8),
        VirtualKeyCode::Numpad(Numpad::Period) => Some(0x71u8),
        VirtualKeyCode::Numpad(Numpad::N2) => Some(0x72u8),
        VirtualKeyCode::Numpad(Numpad::N5) => Some(0x73u8),
        VirtualKeyCode::Numpad(Numpad::N6) => Some(0x74u8),
        VirtualKeyCode::Numpad(Numpad::N8) => Some(0x75u8),
        VirtualKeyCode::Control(Control::Escape) => Some(0x76u8),
        VirtualKeyCode::Modifier(Modifier::NumLock) => Some(0x77u8),
        VirtualKeyCode::Function(Function::F11) => Some(0x78u8),
        VirtualKeyCode::Numpad(Numpad::Add) => Some(0x79u8),
        VirtualKeyCode::Numpad(Numpad::N3) => Some(0x7Au8),
        VirtualKeyCode::Numpad(Numpad::Sub) => Some(0x7Bu8),
        VirtualKeyCode::Numpad(Numpad::Mul) => Some(0x7Cu8),
        VirtualKeyCode::Numpad(Numpad::N9) => Some(0x7Du8),
        VirtualKeyCode::Modifier(Modifier::ScrollLock) => Some(0x7Eu8),
        VirtualKeyCode::Function(Function::F7) => Some(0x83u8),
        VirtualKeyCode::Control(Control::PauseBreak) => Some(0xE1u8),
        _ => None,
    }
}

/// Distinct plain set 2 codes stand for distinct keys: each key a code
/// names has that code and no other.
pub proof fn lemma_set2_codes_distinct(a: u8, b: u8)
    requires
        set2_key(a) is Some,
        set2_key(a) == set2_key(b),
    ensures
        a == b,
{
    lemma_set2_code_inverts(a);
    lemma_set2_code_inverts(b);
}

/// Reading a key back from its plain code gives the code.
proof fn lemma_set2_code_inverts(c: u8)
    ensures
        set2_key(c) matches Some(k) ==> set2_code(k) == Some(c),
{
    match c {
        0x01 => {
            assert(set2_code(set2_key(c)->0) == Some(0x01u8));
        },
        0x03 => {
            assert(set2_code(set2_key(c)->0) == Some(0x03u8));
        },
        0x04 => {
            assert(set2_code(set2_key(c)->0) == Some(0x04u8));
        },
        0x05 => {
            assert(set2_code(set2_key(c)->0) == Some(0x05u8));
        },
        0x06 => {
            assert(set2_code(set2_key(c)->0) == Some(0x06u8));
        },
        0x07 => {
            assert(set2_code(set2_key(c)->0) == Some(0x07u8));
        },
        0x09 => {
            assert(set2_code(set2_key(c)->0) == Some(0x09u8));
        },
        0x0A => {
            assert(set2_code(set2_key(c)->0) == Some(0x0Au8));
        },
        0x0B => {
            assert(set2_code(set2_key(c)->0) == Some(0x0Bu8));
        },
        0x0C => {
            assert(set2_code(set2_key(c)->0) == Some(0x0Cu8));
        },
        0x0D => {
            assert(set2_code(set2_key(c)->0) == Some(0x0Du8));
        },
        0x0E => {
            assert(set2_code(set2_key(c)->0) == Some(0x0Eu8));
        },
        0x11 => {
            assert(set2_code(set2_key(c)->0) == Some(0x11u8));
        },
        0x12 => {
            assert(set2_code(set2_key(c)->0) == Some(0x12u8));
        },
        0x14 => {
            assert(set2_code(set2_key(c)->0) == Some(0x14u8));
        },
        0x15 => {
            assert(set2_code(set2_key(c)->0) == Some(0x15u8));
        },
        0x16 => {
            assert(set2_code(set2_key(c)->0) == Some(0x16u8));
        },
        0x1A => {
            assert(set2_code(set2_key(c)->0) == Some(0x1Au8));
        },
        0x1B => {
            assert(set2_code(set2_key(c)->0) == Some(0x1Bu8));
        },
        0x1C => {
            assert(set2_code(set2_key(c)->0) == Some(0x1Cu8));
        },
        0x1D => {
            assert(set2_code(set2_key(c)->0) == Some(0x1Du8));
        },
        0x1E => {
            assert(set2_code(set2_key(c)->0) == Some(0x1Eu8));
        },
        0x21 => {
            assert(set2_code(set2_key(c)->0) == Some(0x21u8));
        },
        0x22 => {
            assert(set2_code(set2_key(c)->0) == Some(0x22u8));
        },
        0x23 => {
            assert(set2_code(set2_key(c)->0) == Some(0x23u8));
        },
        0x24 => {
            assert(set2_code(set2_key(c)->0) == Some(0x24u8));
        },
        0x25 => {
            assert(set2_code(set2_key(c)->0) == Some(0x25u8));
        },
        0x26 => {
            assert(set2_code(set2_key(c)->0) == Some(0x26u8));
        },
        0x29 => {
            assert(set2_code(set2_key(c)->0) == Some(0x29u8));
        },
        0x2A => {
            assert(set2_code(set2_key(c)->0) == Some(0x2Au8));
        },
        0x2B => {
            assert(set2_code(set2_key(c)->0) == Some(0x2Bu8));
        },
        0x2C => {
            assert(set2_code(set2_key(c)->0) == Some(0x2Cu8));
        },
        0x2D => {
            assert(set2_code(set2_key(c)->0) == Some(0x2Du8));
        },
        0x2E => {
            assert(set2_code(set2_key(c)->0) == Some(0x2Eu8));
        },
        0x31 => {
            assert(set2_code(set2_key(c)->0) == Some(0x31u8));
        },
        0x32 => {
            assert(set2_code(set2_key(c)->0) == Some(0x32u8));
        },
        0x33 => {
            assert(set2_code(set2_key(c)->0) == Some(0x33u8));
        },
        0x34 => {
            assert(set2_code(set2_key(c)->0) == Some(0x34u8));
        },
        0x35 => {
            assert(set2_code(set2_key(c)->0) == Some(0x35u8));
        },
        0x36 => {
            assert(set2_code(set2_key(c)->0) == Some(0x36u8));
        },
        0x3A => {
            assert(set2_code(set2_key(c)->0) == Some(0x3Au8));
        },
        0x3B => {
            assert(set2_code(set2_key(c)->0) == Some(0x3Bu8));
        },
        0x3C => {
            assert(set2_code(set2_key(c)->0) == Some(0x3Cu8));
        },
        0x3D => {
            assert(set2_code(set2_key(c)->0) == Some(0x3Du8));
        },
        0x3E => {
            assert(set2_code(set2_key(c)->0) == Some(0x3Eu8));
        },
        0x41 => {
            assert(set2_code(set2_key(c)->0) == Some(0x41u8));
        },
        0x42 => {
            assert(set2_code(set2_key(c)->0) == Some(0x42u8));
        },
        0x43 => {
            assert(set2_code(set2_key(c)->0) == Some(0x43u8));
        },
        0x44 => {
            assert(set2_code(set2_key(c)->0) == Some(0x44u8));
        },
        0x45 => {
            assert(set2_code(set2_key(c)->0) == Some(0x45u8));
        },
        0x46 => {
            assert(set2_code(set2_key(c)->0) == Some(0x46u8));
        },
        0x49 => {
            assert(set2_code(set2_key(c)->0) == Some(0x49u8));
        },
        0x4A => {
            assert(set2_code(set2_key(c)->0) == Some(0x4Au8));
        },
        0x4B => {
            assert(set2_code(set2_key(c)->0) == Some(0x4Bu8));
        },
        0x4C => {
            assert(set2_code(set2_key(c)->0) == Some(0x4Cu8));
        },
        0x4D => {
            assert(set2_code(set2_key(c)->0) == Some(0x4Du8));
        },
        0x4E => {
            assert(set2_code(set2_key(c)->0) == Some(0x4Eu8));
        },
        0x52 => {
            assert(set2_code(set2_key(c)->0) == Some(0x52u8));
        },
        0x54 => {
            assert(set2_code(set2_key(c)->0) == Some(0x54u8));
        },
        0x55 => {
            assert(set2_code(set2_key(c)->0) == Some(0x55u8));
        },
        0x58 => {
            assert(set2_code(set2_key(c)->0) == Some(0x58u8));
        },
        0x59 => {
            assert(set2_code(set2_key(c)->0) == Some(0x59u8));
        },
        0x5A => {
            assert(set2_code(set2_key(c)->0) == Some(0x5Au8));
        },
        0x5B => {
            assert(set2_code(set2_key(c)->0) == Some(0x5Bu8));
        },
        0x5D => {
            assert(set2_code(set2_key(c)->0) == Some(0x5Du8));
        },
        0x66 => {
            assert(set2_code(set2_key(c)->0) == Some(0x66u8));
        },
        0x69 => {
            assert(set2_code(set2_key(c)->0) == Some(0x69u8));
        },
        0x6B => {
            assert(set2_code(set2_key(c)->0) == Some(0x6Bu8));
        },
        0x6C => {
            assert(set2_code(set2_key(c)->0) == Some(0x6Cu8));
        },
        0x70 => {
            assert(set2_code(set2_key(c)->0) == Some(0x70u8));
        },
        0x71 => {
            assert(set2_code(set2_key(c)->0) == Some(0x71u8));
        },
        0x72 => {
            assert(set2_code(set2_key(c)->0) == Some(0x72u8));
        },
        0x73 => {
            assert(set2_code(set2_key(c)->0) == Some(0x73u8));
        },
        0x74 => {
            assert(set2_code(set2_key(c)->0) == Some(0x74u8));
        },
        0x75 => {
            assert(set2_code(set2_key(c)->0) == Some(0x75u8));
        },
        0x76 => {
            assert(set2_code(set2_key(c)->0) == Some(0x76u8));
        },
        0x77 => {
            assert(set2_code(set2_key(c)->0) == Some(0x77u8));
        },
        0x78 => {
            assert(set2_code(set2_key(c)->0) == Some(0x78u8));
        },
        0x79 => {
            assert(set2_code(set2_key(c)->0) == Some(0x79u8));
        },
        0x7A => {
            assert(set2_code(set2_key(c)->0) == Some(0x7Au8));
        },
        0x7B => {
            assert(set2_code(set2_key(c)->0) == Some(0x7Bu8));
        },
        0x7C => {
            assert(set2_code(set2_key(c)->0) == Some(0x7Cu8));
        },
        0x7D => {
            assert(set2_code(set2_key(c)->0) == Some(0x7Du8));
        },
        0x7E => {
            assert(set2_code(set2_key(c)->0) == Some(0x7Eu8));
        },
        0x83 => {
            assert(set2_code(set2_key(c)->0) == Some(0x83u8));
        },
        0xE1 => {
            assert(set2_code(set2_key(c)->0) == Some(0xE1u8));
        },
        _ => {
            assert(set2_key(c) is None);
        },
    }
}

/// The letter and number-row keys of scan code set 2: pressing one (its
/// make code from the start state) reports that key going down; the same
/// code after the release prefix reports it coming up.
pub proof fn lemma_set2_letters_and_digits()
    ensures
        set2_step(State::Start, 0x15) == (State::Start, Some(KeyboardEvent::Down(VirtualKeyCode::Letter(Letter::Q)))),
        set2_step(State::Release, 0x15) == (State::Start, Some(KeyboardEvent::Up(VirtualKeyCode::Letter(Letter::Q)))),
        set2_step(State::Start, 0x16) == (State::Start, Some(KeyboardEvent::Down(VirtualKeyCode::Number(Number::N1)))),
        set2_step(State::Release, 0x16) == (State::Start, Some(KeyboardEvent::Up(VirtualKeyCode::Number(Number::N1)))),
        set2_step(State::Start, 0x1A) == (State::Start, Some(KeyboardEvent::Down(VirtualKeyCode::Letter(Letter::Z)))),
        set2_step(State::Release, 0x1A) == (State::Start, Some(KeyboardEvent::Up(VirtualKeyCode::Letter(Letter::Z)))),
        set2_step(State::Start, 0x1B) == (State::Start, Some(KeyboardEvent::Down(VirtualKeyCode::Letter(Letter::S)))),
        set2_step(State::Release, 0x1B) == (State::Start, Some(KeyboardEvent::Up(VirtualKeyCode::Letter(Letter::S)))),
        set2_step(State::Start, 0x1C) == (State::Start, Some(KeyboardEvent::Down(VirtualKeyCode::Letter(Letter::A)))),
        set2_step(State::Release, 0x1C) == (State::Start, Some(KeyboardEvent::Up(VirtualKeyCode::Letter(Letter::A)))),
        set2_step(State::Start, 0x1D) == (State::Start, Some(KeyboardEvent::Down(VirtualKeyCode::Letter(Letter::W)))),
        set2_step(State::Release, 0x1D) == (State::Start, Some(KeyboardEvent::Up(VirtualKeyCode::Letter(Letter::W)))),
        set2_step(State::Start, 0x1E) == (State::Start, Some(KeyboardEvent::Down(VirtualKeyCode::Number(Number::N2)))),
        set2_step(State::Release, 0x1E) == (State::Start, Some(KeyboardEvent::Up(VirtualKeyCode::Number(Number::N2)))),
        set2_step(State::Start, 0x21) == (State::Start, Some(KeyboardEvent::Down(VirtualKeyCode::Letter(Letter::C)))),
        set2_step(State::Release, 0x21) == (State::Start, Some(KeyboardEvent::Up(VirtualKeyCode::Letter(Letter::C)))),
        set2_step(State::Start, 0x22) == (State::Start, Some(KeyboardEvent::Down(VirtualKeyCode::Letter(Letter::X)))),
        set2_step(State::Release, 0x22) == (State::Start, Some(KeyboardEvent::Up(VirtualKeyCode::Letter(Letter::X)))),
        set2_step(State::Start, 0x23) == (State::Start, Some(KeyboardEvent::Down(VirtualKeyCode::Letter(Letter::D)))),
        set2_step(State::Release, 0x23) == (State::Start, Some(KeyboardEvent::Up(VirtualKeyCode::Letter(Letter::D)))),
        set2_step(State::Start, 0x24) == (State::Start, Some(KeyboardEvent::Down(VirtualKeyCode::Letter(Letter::E)))),
        set2_step(State::Release, 0x24) == (State::Start, Some(KeyboardEvent::Up(VirtualKeyCode::Letter(Letter::E)))),
        set2_step(State::Start, 0x25) == (State::Start, Some(KeyboardEvent::Down(VirtualKeyCode::Number(Number::N4)))),
        set2_step(State::Release, 0x25) == (State::Start, Some(KeyboardEvent::Up(VirtualKeyCode::Number(Number::N4)))),
        set2_step(State::Start, 0x26) == (State::Start, Some(KeyboardEvent::Down(VirtualKeyCode::Number(Number::N3)))),
        set2_step(State::Release, 0x26) == (State::Start, Some(KeyboardEvent::Up(VirtualKeyCode::Number(Number::N3)))),
        set2_step(State::Start, 0x2A) == (State::Start, Some(KeyboardEvent::Down(VirtualKeyCode::Letter(Letter::V)))),
        set2_step(State::Release, 0x2A) == (State::Start, Some(KeyboardEvent::Up(VirtualKeyCode::Letter(Letter::V)))),
        set2_step(State::Start, 0x2B) == (State::Start, Some(KeyboardEvent::Down(VirtualKeyCode::Letter(Letter::F)))),
        set2_step(State::Release, 0x2B) == (State::Start, Some(KeyboardEvent::Up(VirtualKeyCode::Letter(Letter::F)))),
        set2_step(State::Start, 0x2C) == (State::Start, Some(KeyboardEvent::Down(VirtualKeyCode::Letter(Letter::T)))),
        set2_step(State::Release, 0x2C) == (State::Start, Some(KeyboardEvent::Up(VirtualKeyCode::Letter(Letter::T)))),
        set2_step(State::Start, 0x2D) == (State::Start, Some(KeyboardEvent::Down(VirtualKeyCode::Letter(Letter::R)))),
        set2_step(State::Release, 0x2D) == (State::Start, Some(KeyboardEvent::Up(VirtualKeyCode::Letter(Letter::R)))),
        set2_step(State::Start, 0x2E) == (State::Start, Some(KeyboardEvent::Down(VirtualKeyCode::Number(Number::N5)))),
        set2_step(State::Release, 0x2E) == (State::Start, Some(KeyboardEvent::Up(VirtualKeyCode::Number(Number::N5)))),
        set2_step(State::Start, 0x31) == (State::Start, Some(KeyboardEvent::Down(VirtualKeyCode::Letter(Letter::N)))),
        set2_step(State::Release, 0x31) == (State::Start, Some(KeyboardEvent::Up(VirtualKeyCode::Letter(Letter::N)))),
        set2_step(State::Start, 0x32) == (State::Start, Some(KeyboardEvent::Down(VirtualKeyCode::Letter(Letter::B)))),
        set2_step(State::Release, 0x32) == (State::Start, Some(KeyboardEvent::Up(VirtualKeyCode::Letter(Letter::B)))),
        set2_step(State::Start, 0x33) == (State::Start, Some(KeyboardEvent::Down(VirtualKeyCode::Letter(Letter::H)))),
        set2_step(State::Release, 0x33) == (State::Start, Some(KeyboardEvent::Up(VirtualKeyCode::Letter(Letter::H)))),
        set2_step(State::Start, 0x34) == (State::Start, Some(KeyboardEvent::Down(VirtualKeyCode::Letter(Letter::G)))),
        set2_step(State::Release, 0x34) == (State::Start, Some(KeyboardEvent::Up(VirtualKeyCode::Letter(Letter::G)))),
        set2_step(State::Start, 0x35) == (State::Start, Some(KeyboardEvent::Down(VirtualKeyCode::Letter(Letter::Y)))),
        set2_step(State::Release, 0x35) == (State::Start, Some(KeyboardEvent::Up(VirtualKeyCode::Letter(Letter::Y)))),
        set2_step(State::Start, 0x36) == (State::Start, Some(KeyboardEvent::Down(VirtualKeyCode::Number(Number::N6)))),
        set2_step(State::Release, 0x36) == (State::Start, Some(KeyboardEvent::Up(VirtualKeyCode::Number(Number::N6)))),
        set2_step(State::Start, 0x3A) == (State::Start, Some(KeyboardEvent::Down(VirtualKeyCode::Letter(Letter::M)))),
        set2_step(State::Release, 0x3A) == (State::Start, Some(KeyboardEvent::Up(VirtualKeyCode::Letter(Letter::M)))),
        set2_step(State::Start, 0x3B) == (State::Start, Some(KeyboardEvent::Down(VirtualKeyCode::Letter(Letter::J)))),
        set2_step(State::Release, 0x3B) == (State::Start, Some(KeyboardEvent::Up(VirtualKeyCode::Letter(Letter::J)))),
        set2_step(State::Start, 0x3C) == (State::Start, Some(KeyboardEvent::Down(VirtualKeyCode::Letter(Letter::U)))),
        set2_step(State::Release, 0x3C) == (State::Start, Some(KeyboardEvent::Up(VirtualKeyCode::Letter(Letter::U)))),
        set2_step(State::Start, 0x3D) == (State::Start, Some(KeyboardEvent::Down(VirtualKeyCode::Number(Number::N7)))),
        set2_step(State::Release, 0x3D) == (State::Start, Some(KeyboardEvent::Up(VirtualKeyCode::Number(Number::N7)))),
        set2_step(State::Start, 0x3E) == (State::Start, Some(KeyboardEvent::Down(VirtualKeyCode::Number(Number::N8)))),
        set2_step(State::Release, 0x3E) == (State::Start, Some(KeyboardEvent::Up(VirtualKeyCode::Number(Number::N8)))),
        set2_step(State::Start, 0x42) == (State::Start, Some(KeyboardEvent::Down(VirtualKeyCode::Letter(Letter::K)))),
        set2_step(State::Release, 0x42) == (State::Start, Some(KeyboardEvent::Up(VirtualKeyCode::Letter(Letter::K)))),
        set2_step(State::Start, 0x43) == (State::Start, Some(KeyboardEvent::Down(VirtualKeyCode::Letter(Letter::I)))),
        set2_step(State::Release, 0x43) == (State::Start, Some(KeyboardEvent::Up(VirtualKeyCode::Letter(Letter::I)))),
        set2_step(State::Start, 0x44) == (State::Start, Some(KeyboardEvent::Down(VirtualKeyCode::Letter(Letter::O)))),
        set2_step(State::Release, 0x44) == (State::Start, Some(KeyboardEvent::Up(VirtualKeyCode::Letter(Letter::O)))),
        set2_step(State::Start, 0x45) == (State::Start, Some(KeyboardEvent::Down(VirtualKeyCode::Number(Number::N0)))),
        set2_step(State::Release, 0x45) == (State::Start, Some(KeyboardEvent::Up(VirtualKeyCode::Number(Number::N0)))),
        set2_step(State::Start, 0x46) == (State::Start, Some(KeyboardEvent::Down(VirtualKeyCode::Number(Number::N9)))),
        set2_step(State::Release, 0x46) == (State::Start, Some(KeyboardEvent::Up(VirtualKeyCode::Number(Number::N9)))),
        set2_step(State::Start, 0x4B) == (State::Start, Some(KeyboardEvent::Down(VirtualKeyCode::Letter(Letter::L)))),
        set2_step(State::Release, 0x4B) == (State::Start, Some(KeyboardEvent::Up(VirtualKeyCode::Letter(Letter::L)))),
        set2_step(State::Start, 0x4D) == (State::Start, Some(KeyboardEvent::Down(VirtualKeyCode::Letter(Letter::P)))),
        set2_step(State::Release, 0x4D) == (State::Start, Some(KeyboardEvent::Up(VirtualKeyCode::Letter(Letter::P)))),
{
}

/// The extended set 2 code of a key, if it has one: the inverse of
/// `set2_extended_key`.
pub open spec fn set2_extended_code(key: VirtualKeyCode) -> Option<u8> {
    match key {
        VirtualKeyCode::Modifier(Modifier::RightAlt) => Some(0x11u8),
        VirtualKeyCode::Modifier(Modifier::RightControl) => Some(0x14u8),
        VirtualKeyCode::Modifier(Modifier::LeftWindows) => Some(0x1Fu8),
        VirtualKeyCode::Modifier(Modifier::RightWindows) => Some(0x27u8),
        VirtualKeyCode::Misc(Misc::MenuKey) => Some(0x2Fu8),
        VirtualKeyCode::Numpad(Numpad::Div) => Some(0x4Au8),
        VirtualKeyCode::Numpad(Numpad::Enter) => Some(0x5Au8),
        VirtualKeyCode::Control(Control::End) => Some(0x69u8),
        VirtualKeyCode::Control(Control::ArrowLeft) => Some(0x6Bu8),
        VirtualKeyCode::Control(Control::Home) => Some(0x6Cu8),
        VirtualKeyCode::Control(Control::Insert) => Some(0x70u8),
        VirtualKeyCode::Control(Control::Delete) => Some(0x71u8),
        VirtualKeyCode::Control(Control::ArrowDown) => Some(0x72u8),
        VirtualKeyCode::Control(Control::ArrowRight) => Some(0x74u8),
        VirtualKeyCode::Control(Control::ArrowUp) => Some(0x75u8),
        VirtualKeyCode::Control(Control::PageDown) => Some(0x7Au8),
        VirtualKeyCode::Control(Control::PageUp) => Some(0x7Du8),
        _ => None,
    }
}

/// Reading a key back from its extended code gives the code.
proof fn lemma_set2_extended_code_inverts(c: u8)
    ensures
        set2_extended_key(c) matches Some(k) ==> set2_extended_code(k) == Some(c),
{
    match c {
        0x11 => {
            assert(set2_extended_code(set2_extended_key(c)->0) == Some(0x11u8));
        },
        0x14 => {
            assert(set2_extended_code(set2_extended_key(c)->0) == Some(0x14u8));
        },
        0x1F => {
            assert(set2_extended_code(set2_extended_key(c)->0) == Some(0x1Fu8));
        },
        0x27 => {
            assert(set2_extended_code(set2_extended_key(c)->0) == Some(0x27u8));
        },
        0x2F => {
            assert(set2_extended_code(set2_extended_key(c)->0) == Some(0x2Fu8));
        },
        0x4A => {
            assert(set2_extended_code(set2_extended_key(c)->0) == Some(0x4Au8));
        },
        0x5A => {
            assert(set2_extended_code(set2_extended_key(c)->0) == Some(0x5Au8));
        },
        0x69 => {
            assert(set2_extended_code(set2_extended_key(c)->0) == Some(0x69u8));
        },
        0x6B => {
            assert(set2_extended_code(set2_extended_key(c)->0) == Some(0x6Bu8));
        },
        0x6C => {
            assert(set2_extended_code(set2_extended_key(c)->0) == Some(0x6Cu8));
        },
        0x70 => {
            assert(set2_extended_code(set2_extended_key(c)->0) == Some(0x70u8));
        },
        0x71 => {
            assert(set2_extended_code(set2_extended_key(c)->0) == Some(0x71u8));
        },
        0x72 => {
            assert(set2_extended_code(set2_extended_key(c)->0) == Some(0x72u8));
        },
        0x74 => {
            assert(set2_extended_code(set2_extended_key(c)->0) == Some(0x74u8));
        },
        0x75 => {
            assert(set2_extended_code(set2_extended_key(c)->0) == Some(0x75u8));
        },
        0x7A => {
            assert(set2_extended_code(set2_extended_key(c)->0) == Some(0x7Au8));
        },
        0x7D => {
            assert(set2_extended_code(set2_extended_key(c)->0) == Some(0x7Du8));
        },
        _ => {
            assert(set2_extended_key(c) is None);
        },
    }
}

/// Distinct extended codes stand for distinct keys, and no extended key is
/// also a plain one: every key has one code.
pub proof fn lemma_set2_extended_codes_distinct(a: u8, b: u8)
    requires
        set2_extended_key(a) is Some,
    ensures
        set2_extended_key(a) == set2_extended_key(b) ==> a == b,
        set2_key(b) != set2_extended_key(a),
{
    lemma_set2_extended_code_inverts(a);
    lemma_set2_extended_code_inverts(b);
    lemma_set2_code_inverts(b);
    if set2_key(b) == set2_extended_key(a) {
        assert(set2_code(set2_extended_key(a)->0) is None);
    }
}

} // verus!
