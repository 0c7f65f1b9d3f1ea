//! The US keyboard layout: which character a key produces under the current
//! shift, caps-lock and num-lock state.
use vstd::prelude::*;
use crate::keys::{Control, Letter, Misc, Number, Numpad, VirtualKeyCode};

verus! {

/// The value of a number-row key.
pub open spec fn number_value(n: Number) -> int {
    match n {
        Number::N0 => 0,
        Number::N1 => 1,
        Number::N2 => 2,
        Number::N3 => 3,
        Number::N4 => 4,
        Number::N5 => 5,
        Number::N6 => 6,
        Number::N7 => 7,
        Number::N8 => 8,
        Number::N9 => 9,
    }
}

/// The position of a letter in the alphabet, starting at 0 for A.
pub open spec fn letter_index(l: Letter) -> int {
    match l {
        Letter::A => 0,
        Letter::B => 1,
        Letter::C => 2,
        Letter::D => 3,
        Letter::E => 4,
        Letter::F => 5,
        Letter::G => 6,
        Letter::H => 7,
        Letter::I => 8,
        Letter::J => 9,
        Letter::K => 10,
        Letter::L => 11,
        Letter::M => 12,
        Letter::N => 13,
        Letter::O => 14,
        Letter::P => 15,
        Letter::Q => 16,
        Letter::R => 17,
        Letter::S => 18,
        Letter::T => 19,
        Letter::U => 20,
        Letter::V => 21,
        Letter::W => 22,
        Letter::X => 23,
        Letter::Y => 24,
        Letter::Z => 25,
    }
}

/// The ASCII digit character for a value in 0..10.
pub open spec fn digit_char(v: int) -> char {
    (48 + v) as char
}

/// A letter in upper or lower case.
pub open spec fn letter_char(l: Letter, upper: bool) -> char {
    if upper {
        (65 + letter_index(l)) as char
    } else {
        (97 + letter_index(l)) as char
    }
}

/// What a number-row key types with shift held.
pub open spec fn shifted_number_char(n: Number) -> char {
    match n {
        Number::N0 => ')',
        Number::N1 => '!',
        Number::N2 => '@',
        Number::N3 => '#',
        Number::N4 => '$',
        Number::N5 => '%',
        Number::N6 => '^',
        Number::N7 => '&',
        Number::N8 => '*',
        Number::N9 => '(',
    }
}

/// The digit that a keypad key stands for, if it stands for one.
pub open spec fn numpad_digit(k: Numpad) -> Option<int> {
    match k {
        Numpad::N0 => Some(0),
        Numpad::N1 => Some(1),
        Numpad::N2 => Some(2),
        Numpad::N3 => Some(3),
        Numpad::N4 => Some(4),
        Numpad::N5 => Some(5),
        Numpad::N6 => Some(6),
        Numpad::N7 => Some(7),
        Numpad::N8 => Some(8),
        Numpad::N9 => Some(9),
        _ => None,
    }
}

/// What a keypad key types: digits only with num lock on (5 always), enter and
/// period always, nothing (NUL) otherwise.
pub open spec fn numpad_char(k: Numpad, numlock: bool) -> char {
    match k {
        Numpad::Enter => '\n',
        Numpad::Period => '.',
        Numpad::N5 => '5',
        _ => match numpad_digit(k) {
            Some(d) => if numlock { digit_char(d) } else { '\0' },
            None => '\0',
        },
    }
}

/// What a control key types: newline, space, backspace, delete or tab, NUL otherwise.
pub open spec fn control_char(k: Control) -> char {
    match k {
        Control::Enter => '\n',
        Control::Space => ' ',
        Control::Backspace => '\x08',
        Control::Delete => '\x7F',
        Control::Tab => '\t',
        _ => '\0',
    }
}

/// What a punctuation key types, with or without shift.
pub open spec fn misc_char(k: Misc, shift: bool) -> char {
    match k {
        Misc::Hyphen => if shift { '_' } else { '-' },
        Misc::Equals => if shift { '+' } else { '=' },
        Misc::Comma => if shift { '<' } else { ',' },
        Misc::Period => if shift { '>' } else { '.' },
        Misc::SemiColon => if shift { ':' } else { ';' },
        Misc::ForwardSlash => if shift { '?' } else { '/' },
        Misc::BackSlash => if shift { '|' } else { '\\' },
        Misc::BackTick => if shift { '~' } else { '`' },
        Misc::LeftBracket => if shift { '{' } else { '[' },
        Misc::RightBracket => if shift { '}' } else { ']' },
        Misc::Quote => if shift { '"' } else { '\'' },
        Misc::MenuKey => '\0',
    }
}

/// The character a key types on a US layout. Either shift key counts as
/// shift; caps lock inverts the case of letters only; num lock only affects
/// the keypad digits. Keys that type nothing give NUL.
pub open spec fn us_unicode(
    keycode: VirtualKeyCode,
    lshift: bool,
    rshift: bool,
    caps: bool,
    numlock: bool,
) -> char {
    let shift = lshift || rshift;
    match keycode {
        VirtualKeyCode::Number(n) => if shift {
            shifted_number_char(n)
        } else {
            digit_char(number_value(n))
        },
        VirtualKeyCode::Numpad(k) => numpad_char(k, numlock),
        VirtualKeyCode::Letter(l) => letter_char(l, shift != caps),
        VirtualKeyCode::Control(k) => control_char(k),
        VirtualKeyCode::Misc(k) => misc_char(k, shift),
        VirtualKeyCode::Function(_) => '\0',
        VirtualKeyCode::Modifier(_) => '\0',
    }
}

/// The US keyboard layout.
pub struct USKeymap;

impl USKeymap {
    /// The character that `keycode` types under the given modifier state.
    pub fn get_unicode(
        keycode: VirtualKeyCode,
        lshift: bool,
        rshift: bool,
        caps: bool,
        numlock: bool,
    ) -> (c: char)
        ensures
            c == us_unicode(keycode, lshift, rshift, caps, numlock),
    {
        let shift = lshift || rshift;
        let caps_shift = shift != caps;
        match keycode {
            VirtualKeyCode::Number(number) => {
                if shift {
                    match number {
                        Number::N0 => ')',
                        Number::N1 => '!',
                        Number::N2 => '@',
                        Number::N3 => '#',
                        Number::N4 => '$',
                        Number::N5 => '%',
                        Number::N6 => '^',
                        Number::N7 => '&',
                        Number::N8 => '*',
                        Number::N9 => '(',
                    }
                } else {
                    match number {
                        Number::N0 => '0',
                        Number::N1 => '1',
                        Number::N2 => '2',
                        Number::N3 => '3',
                        Number::N4 => '4',
                        Number::N5 => '5',
                        Number::N6 => '6',
                        Number::N7 => '7',
                        Number::N8 => '8',
                        Number::N9 => '9',
                    }
                }
            },
            VirtualKeyCode::Numpad(key) => {
                if numlock {
                    match key {
                        Numpad::N0 => '0',
                        Numpad::N1 => '1',
                        Numpad::N2 => '2',
                        Numpad::N3 => '3',
                        Numpad::N4 => '4',
                        Numpad::N5 => '5',
                        Numpad::N6 => '6',
                        Numpad::N7 => '7',
                        Numpad::N8 => '8',
                        Numpad::N9 => '9',
                        Numpad::Enter => '\n',
                        Numpad::Period => '.',
                        _ => '\0',
                    }
                } else {
                    match key {
                        Numpad::N5 => '5',
                        Numpad::Enter => '\n',
                        Numpad::Period => '.',
                        _ => '\0',
                    }
                }
            },
            VirtualKeyCode::Letter(letter) => {
                if caps_shift {
                    match letter {
                        Letter::A => 'A',
                        Letter::B => 'B',
                        Letter::C => 'C',
                        Letter::D => 'D',
                        Letter::E => 'E',
                        Letter::F => 'F',
                        Letter::G => 'G',
                        Letter::H => 'H',
                        Letter::I => 'I',
                        Letter::J => 'J',
                        Letter::K => 'K',
                        Letter::L => 'L',
                        Letter::M => 'M',
                        Letter::N => 'N',
                        Letter::O => 'O',
                        Letter::P => 'P',
                        Letter::Q => 'Q',
                        Letter::R => 'R',
                        Letter::S => 'S',
                        Letter::T => 'T',
                        Letter::U => 'U',
                        Letter::V => 'V',
                        Letter::W => 'W',
                        Letter::X => 'X',
                        Letter::Y => 'Y',
                        Letter::Z => 'Z',
                    }
                } else {
                    match letter {
                        Letter::A => 'a',
                        Letter::B => 'b',
                        Letter::C => 'c',
                        Letter::D => 'd',
                        Letter::E => 'e',
                        Letter::F => 'f',
                        Letter::G => 'g',
                        Letter::H => 'h',
                        Letter::I => 'i',
                        Letter::J => 'j',
                        Letter::K => 'k',
                        Letter::L => 'l',
                        Letter::M => 'm',
                        Letter::N => 'n',
                        Letter::O => 'o',
                        Letter::P => 'p',
                        Letter::Q => 'q',
                        Letter::R => 'r',
                        Letter::S => 's',
                        Letter::T => 't',
                        Letter::U => 'u',
                        Letter::V => 'v',
                        Letter::W => 'w',
                        Letter::X => 'x',
                        Letter::Y => 'y',
                        Letter::Z => 'z',
                    }
                }
            },
            VirtualKeyCode::Control(key) => match key {
                Control::Enter => '\n',
                Control::Space => ' ',
                Control::Backspace => '\x08',
                Control::Delete => '\u{7F}',
                Control::Tab => '\x09',
                _ => '\0',
            },
            VirtualKeyCode::Misc(key) => {
                if shift {
                    match key {
                        Misc::Hyphen => '_',
                        Misc::Equals => '+',
                        Misc::Comma => '<',
                        Misc::Period => '>',
                        Misc::SemiColon => ':',
                        Misc::ForwardSlash => '?',
                        Misc::BackSlash => '|',
                        Misc::BackTick => '~',
                        Misc::LeftBracket => '{',
                        Misc::RightBracket => '}',
                        Misc::Quote => '"',
                        Misc::MenuKey => '\0',
                    }
                } else {
                    match key {
                        Misc::Hyphen => '-',
                        Misc::Equals => '=',
                        Misc::Comma => ',',
                        Misc::Period => '.',
                        Misc::SemiColon => ';',
                        Misc::ForwardSlash => '/',
                        Misc::BackSlash => '\\',
                        Misc::BackTick => '`',
                        Misc::LeftBracket => '[',
                        Misc::RightBracket => ']',
                        Misc::Quote => '\'',
                        Misc::MenuKey => '\0',
                    }
                }
            },
            VirtualKeyCode::Function(_) => '\0',
            VirtualKeyCode::Modifier(_) => '\0',
        }
    }
}

/// Either shift key has the same effect: swapping which of the two is held
/// never changes the character.
pub proof fn lemma_shift_keys_interchangeable(
    keycode: VirtualKeyCode,
    lshift: bool,
    rshift: bool,
    caps: bool,
    numlock: bool,
)
    ensures
        us_unicode(keycode, lshift, rshift, caps, numlock) == us_unicode(
            keycode,
            rshift,
            lshift,
            caps,
            numlock,
        ),
{
}

/// Caps lock changes letters only: every other key types the same character
/// with caps lock on or off.
pub proof fn lemma_caps_lock_affects_letters_only(
    keycode: VirtualKeyCode,
    lshift: bool,
    rshift: bool,
    numlock: bool,
)
    requires
        !(keycode is Letter),
    ensures
        us_unicode(keycode, lshift, rshift, true, numlock) == us_unicode(
            keycode,
            lshift,
            rshift,
            false,
            numlock,
        ),
{
}

/// Caps lock and shift cancel on letters: with both, a letter is lower case;
/// with exactly one, upper case.
pub proof fn lemma_caps_and_shift_cancel(l: Letter, numlock: bool)
    ensures
        us_unicode(VirtualKeyCode::Letter(l), true, false, true, numlock) == letter_char(l, false),
        us_unicode(VirtualKeyCode::Letter(l), true, false, false, numlock) == letter_char(l, true),
        us_unicode(VirtualKeyCode::Letter(l), false, false, true, numlock) == letter_char(l, true),
{
}

/// Num lock changes keypad keys only.
pub proof fn lemma_num_lock_affects_keypad_only(
    keycode: VirtualKeyCode,
    lshift: bool,
    rshift: bool,
    caps: bool,
)
    requires
        !(keycode is Numpad),
    ensures
        us_unicode(keycode, lshift, rshift, caps, true) == us_unicode(
            keycode,
            lshift,
            rshift,
            caps,
            false,
        ),
{
}

/// The US layout's number row and punctuation keys: each types the
/// character on its key cap without shift and the one printed above it with
/// either shift key, whatever the locks (semicolon and colon, quote and
/// double quote, one and exclamation mark, and so on).
pub proof fn lemma_us_key_caps(caps: bool, numlock: bool)
    ensures
        us_unicode(VirtualKeyCode::Misc(Misc::BackTick), false, false, caps, numlock) == '`',
        us_unicode(VirtualKeyCode::Misc(Misc::BackTick), true, false, caps, numlock) == '~',
        us_unicode(VirtualKeyCode::Misc(Misc::BackTick), false, true, caps, numlock) == '~',
        us_unicode(VirtualKeyCode::Misc(Misc::Hyphen), false, false, caps, numlock) == '-',
        us_unicode(VirtualKeyCode::Misc(Misc::Hyphen), true, false, caps, numlock) == '_',
        us_unicode(VirtualKeyCode::Misc(Misc::Hyphen), false, true, caps, numlock) == '_',
        us_unicode(VirtualKeyCode::Misc(Misc::Equals), false, false, caps, numlock) == '=',
        us_unicode(VirtualKeyCode::Misc(Misc::Equals), true, false, caps, numlock) == '+',
        us_unicode(VirtualKeyCode::Misc(Misc::Equals), false, true, caps, numlock) == '+',
        us_unicode(VirtualKeyCode::Misc(Misc::LeftBracket), false, false, caps, numlock) == '[',
        us_unicode(VirtualKeyCode::Misc(Misc::LeftBracket), true, false, caps, numlock) == '{',
        us_unicode(VirtualKeyCode::Misc(Misc::LeftBracket), false, true, caps, numlock) == '{',
        us_unicode(VirtualKeyCode::Misc(Misc::RightBracket), false, false, caps, numlock) == ']',
        us_unicode(VirtualKeyCode::Misc(Misc::RightBracket), true, false, caps, numlock) == '}',
        us_unicode(VirtualKeyCode::Misc(Misc::RightBracket), false, true, caps, numlock) == '}',
        us_unicode(VirtualKeyCode::Misc(Misc::BackSlash), false, false, caps, numlock) == '\\',
        us_unicode(VirtualKeyCode::Misc(Misc::BackSlash), true, false, caps, numlock) == '|',
        us_unicode(VirtualKeyCode::Misc(Misc::BackSlash), false, true, caps, numlock) == '|',
        us_unicode(VirtualKeyCode::Misc(Misc::SemiColon), false, false, caps, numlock) == ';',
        us_unicode(VirtualKeyCode::Misc(Misc::SemiColon), true, false, caps, numlock) == ':',
        us_unicode(VirtualKeyCode::Misc(Misc::SemiColon), false, true, caps, numlock) == ':',
        us_unicode(VirtualKeyCode::Misc(Misc::Quote), false, false, caps, numlock) == '\'',
        us_unicode(VirtualKeyCode::Misc(Misc::Quote), true, false, caps, numlock) == '"',
        us_unicode(VirtualKeyCode::Misc(Misc::Quote), false, true, caps, numlock) == '"',
        us_unicode(VirtualKeyCode::Misc(Misc::Comma), false, false, caps, numlock) == ',',
        us_unicode(VirtualKeyCode::Misc(Misc::Comma), true, false, caps, numlock) == '<',
        us_unicode(VirtualKeyCode::Misc(Misc::Comma), false, true, caps, numlock) == '<',
        us_unicode(VirtualKeyCode::Misc(Misc::Period), false, false, caps, numlock) == '.',
        us_unicode(VirtualKeyCode::Misc(Misc::Period), true, false, caps, numlock) == '>',
        us_unicode(VirtualKeyCode::Misc(Misc::Period), false, true, caps, numlock) == '>',
        us_unicode(VirtualKeyCode::Misc(Misc::ForwardSlash), false, false, caps, numlock) == '/',
        us_unicode(VirtualKeyCode::Misc(Misc::ForwardSlash), true, false, caps, numlock) == '?',
        us_unicode(VirtualKeyCode::Misc(Misc::ForwardSlash), false, true, caps, numlock) == '?',
        us_unicode(VirtualKeyCode::Number(Number::N1), false, false, caps, numlock) == '1',
        us_unicode(VirtualKeyCode::Number(Number::N1), true, false, caps, numlock) == '!',
        us_unicode(VirtualKeyCode::Number(Number::N1), false, true, caps, numlock) == '!',
        us_unicode(VirtualKeyCode::Number(Number::N2), false, false, caps, numlock) == '2',
        us_unicode(VirtualKeyCode::Number(Number::N2), true, false, caps, numlock) == '@',
        us_unicode(VirtualKeyCode::Number(Number::N2), false, true, caps, numlock) == '@',
        us_unicode(VirtualKeyCode::Number(Number::N3), false, false, caps, numlock) == '3',
        us_unicode(VirtualKeyCode::Number(Number::N3), true, false, caps, numlock) == '#',
        us_unicode(VirtualKeyCode::Number(Number::N3), false, true, caps, numlock) == '#',
        us_unicode(VirtualKeyCode::Number(Number::N4), false, false, caps, numlock) == '4',
        us_unicode(VirtualKeyCode::Number(Number::N4), true, false, caps, numlock) == '$',
        us_unicode(VirtualKeyCode::Number(Number::N4), false, true, caps, numlock) == '$',
        us_unicode(VirtualKeyCode::Number(Number::N5), false, false, caps, numlock) == '5',
        us_unicode(VirtualKeyCode::Number(Number::N5), true, false, caps, numlock) == '%',
        us_unicode(VirtualKeyCode::Number(Number::N5), false, true, caps, numlock) == '%',
        us_unicode(VirtualKeyCode::Number(Number::N6), false, false, caps, numlock) == '6',
        us_unicode(VirtualKeyCode::Number(Number::N6), true, false, caps, numlock) == '^',
        us_unicode(VirtualKeyCode::Number(Number::N6), false, true, caps, numlock) == '^',
        us_unicode(VirtualKeyCode::Number(Number::N7), false, false, caps, numlock) == '7',
        us_unicode(VirtualKeyCode::Number(Number::N7), true, false, caps, numlock) == '&',
        us_unicode(VirtualKeyCode::Number(Number::N7), false, true, caps, numlock) == '&',
        us_unicode(VirtualKeyCode::Number(Number::N8), false, false, caps, numlock) == '8',
        us_unicode(VirtualKeyCode::Number(Number::N8), true, false, caps, numlock) == '*',
        us_unicode(VirtualKeyCode::Number(Number::N8), false, true, caps, numlock) == '*',
        us_unicode(VirtualKeyCode::Number(Number::N9), false, false, caps, numlock) == '9',
        us_unicode(VirtualKeyCode::Number(Number::N9), true, false, caps, numlock) == '(',
        us_unicode(VirtualKeyCode::Number(Number::N9), false, true, caps, numlock) == '(',
        us_unicode(VirtualKeyCode::Number(Number::N0), false, false, caps, numlock) == '0',
        us_unicode(VirtualKeyCode::Number(Number::N0), true, false, caps, numlock) == ')',
        us_unicode(VirtualKeyCode::Number(Number::N0), false, true, caps, numlock) == ')',
{
}

/// Shift always changes what a number-row or punctuation key types: the
/// character above the key differs from the one on it.
pub proof fn lemma_shift_changes_symbol_keys(keycode: VirtualKeyCode, caps: bool, numlock: bool)
    requires
        keycode is Number || (keycode is Misc && keycode != VirtualKeyCode::Misc(Misc::MenuKey)),
    ensures
        us_unicode(keycode, true, false, caps, numlock) != us_unicode(
            keycode,
            false,
            false,
            caps,
            numlock,
        ),
{
    match keycode {
        VirtualKeyCode::Number(n) => {
            assert(digit_char(number_value(n)) != shifted_number_char(n));
        },
        _ => {},
    }
}

/// Each letter key types its own letter: lower case without shift or caps
/// lock, upper case with shift.
pub proof fn lemma_us_letters(numlock: bool)
    ensures
        us_unicode(VirtualKeyCode::Letter(Letter::A), false, false, false, numlock) == 'a',
        us_unicode(VirtualKeyCode::Letter(Letter::A), true, false, false, numlock) == 'A',
        us_unicode(VirtualKeyCode::Letter(Letter::B), false, false, false, numlock) == 'b',
        us_unicode(VirtualKeyCode::Letter(Letter::B), true, false, false, numlock) == 'B',
        us_unicode(VirtualKeyCode::Letter(Letter::C), false, false, false, numlock) == 'c',
        us_unicode(VirtualKeyCode::Letter(Letter::C), true, false, false, numlock) == 'C',
        us_unicode(VirtualKeyCode::Letter(Letter::D), false, false, false, numlock) == 'd',
        us_unicode(VirtualKeyCode::Letter(Letter::D), true, false, false, numlock) == 'D',
        us_unicode(VirtualKeyCode::Letter(Letter::E), false, false, false, numlock) == 'e',
        us_unicode(VirtualKeyCode::Letter(Letter::E), true, false, false, numlock) == 'E',
        us_unicode(VirtualKeyCode::Letter(Letter::F), false, false, false, numlock) == 'f',
        us_unicode(VirtualKeyCode::Letter(Letter::F), true, false, false, numlock) == 'F',
        us_unicode(VirtualKeyCode::Letter(Letter::G), false, false, false, numlock) == 'g',
        us_unicode(VirtualKeyCode::Letter(Letter::G), true, false, false, numlock) == 'G',
        us_unicode(VirtualKeyCode::Letter(Letter::H), false, false, false, numlock) == 'h',
        us_unicode(VirtualKeyCode::Letter(Letter::H), true, false, false, numlock) == 'H',
        us_unicode(VirtualKeyCode::Letter(Letter::I), false, false, false, numlock) == 'i',
        us_unicode(VirtualKeyCode::Letter(Letter::I), true, false, false, numlock) == 'I',
        us_unicode(VirtualKeyCode::Letter(Letter::J), false, false, false, numlock) == 'j',
        us_unicode(VirtualKeyCode::Letter(Letter::J), true, false, false, numlock) == 'J',
        us_unicode(VirtualKeyCode::Letter(Letter::K), false, false, false, numlock) == 'k',
        us_unicode(VirtualKeyCode::Letter(Letter::K), true, false, false, numlock) == 'K',
        us_unicode(VirtualKeyCode::Letter(Letter::L), false, false, false, numlock) == 'l',
        us_unicode(VirtualKeyCode::Letter(Letter::L), true, false, false, numlock) == 'L',
        us_unicode(VirtualKeyCode::Letter(Letter::M), false, false, false, numlock) == 'm',
        us_unicode(VirtualKeyCode::Letter(Letter::M), true, false, false, numlock) == 'M',
        us_unicode(VirtualKeyCode::Letter(Letter::N), false, false, false, numlock) == 'n',
        us_unicode(VirtualKeyCode::Letter(Letter::N), true, false, false, numlock) == 'N',
        us_unicode(VirtualKeyCode::Letter(Letter::O), false, false, false, numlock) == 'o',
        us_unicode(VirtualKeyCode::Letter(Letter::O), true, false, false, numlock) == 'O',
        us_unicode(VirtualKeyCode::Letter(Letter::P), false, false, false, numlock) == 'p',
        us_unicode(VirtualKeyCode::Letter(Letter::P), true, false, false, numlock) == 'P',
        us_unicode(VirtualKeyCode::Letter(Letter::Q), false, false, false, numlock) == 'q',
        us_unicode(VirtualKeyCode::Letter(Letter::Q), true, false, false, numlock) == 'Q',
        us_unicode(VirtualKeyCode::Letter(Letter::R), false, false, false, numlock) == 'r',
        us_unicode(VirtualKeyCode::Letter(Letter::R), true, false, false, numlock) == 'R',
        us_unicode(VirtualKeyCode::Letter(Letter::S), false, false, false, numlock) == 's',
        us_unicode(VirtualKeyCode::Letter(Letter::S), true, false, false, numlock) == 'S',
        us_unicode(VirtualKeyCode::Letter(Letter::T), false, false, false, numlock) == 't',
        us_unicode(VirtualKeyCode::Letter(Letter::T), true, false, false, numlock) == 'T',
        us_unicode(VirtualKeyCode::Letter(Letter::U), false, false, false, numlock) == 'u',
        us_unicode(VirtualKeyCode::Letter(Letter::U), true, false, false, numlock) == 'U',
        us_unicode(VirtualKeyCode::Letter(Letter::V), false, false, false, numlock) == 'v',
        us_unicode(VirtualKeyCode::Letter(Letter::V), true, false, false, numlock) == 'V',
        us_unicode(VirtualKeyCode::Letter(Letter::W), false, false, false, numlock) == 'w',
        us_unicode(VirtualKeyCode::Letter(Letter::W), true, false, false, numlock) == 'W',
        us_unicode(VirtualKeyCode::Letter(Letter::X), false, false, false, numlock) == 'x',
        us_unicode(VirtualKeyCode::Letter(Letter::X), true, false, false, numlock) == 'X',
        us_unicode(VirtualKeyCode::Letter(Letter::Y), false, false, false, numlock) == 'y',
        us_unicode(VirtualKeyCode::Letter(Letter::Y), true, false, false, numlock) == 'Y',
        us_unicode(VirtualKeyCode::Letter(Letter::Z), false, false, false, numlock) == 'z',
        us_unicode(VirtualKeyCode::Letter(Letter::Z), true, false, false, numlock) == 'Z',
{
}

} // verus!
