//! Virtual key codes and the input events that carry them.
use vstd::prelude::*;

verus! {

/// The number row keys.
#[derive(Clone, Copy, Debug, PartialEq, Eq, Structural)]
pub enum Number {
    N0,
    N1,
    N2,
    N3,
    N4,
    N5,
    N6,
    N7,
    N8,
    N9,
}

/// The keys of the numeric keypad.
#[derive(Clone, Copy, Debug, PartialEq, Eq, Structural)]
pub enum Numpad {
    N0,
    N1,
    N2,
    N3,
    N4,
    N5,
    N6,
    N7,
    N8,
    N9,
    Period,
    Add,
    Sub,
    Mul,
    Div,
    Enter,
}

/// The letter keys.
#[derive(Clone, Copy, Debug, PartialEq, Eq, Structural)]
pub enum Letter {
    A,
    B,
    C,
    D,
    E,
    F,
    G,
    H,
    I,
    J,
    K,
    L,
    M,
    N,
    O,
    P,
    Q,
    R,
    S,
    T,
    U,
    V,
    W,
    X,
    Y,
    Z,
}

/// Editing, navigation and whitespace keys.
#[derive(Clone, Copy, Debug, PartialEq, Eq, Structural)]
pub enum Control {
    Tab,
    Space,
    Enter,
    Backspace,
    Escape,
    PauseBreak,
    End,
    ArrowLeft,
    Home,
    Insert,
    Delete,
    ArrowDown,
    ArrowRight,
    ArrowUp,
    PageDown,
    PageUp,
}

/// Punctuation keys and the menu key.
#[derive(Clone, Copy, Debug, PartialEq, Eq, Structural)]
pub enum Misc {
    BackTick,
    Comma,
    Period,
    ForwardSlash,
    SemiColon,
    Hyphen,
    Quote,
    LeftBracket,
    Equals,
    RightBracket,
    BackSlash,
    MenuKey,
}

/// The function keys F1 to F12.
#[derive(Clone, Copy, Debug, PartialEq, Eq, Structural)]
pub enum Function {
    F1,
    F2,
    F3,
    F4,
    F5,
    F6,
    F7,
    F8,
    F9,
    F10,
    F11,
    F12,
}

/// Modifier and lock keys.
#[derive(Clone, Copy, Debug, PartialEq, Eq, Structural)]
pub enum Modifier {
    LeftAlt,
    LeftShift,
    LeftControl,
    CapsLock,
    RightShift,
    NumLock,
    ScrollLock,
    RightAlt,
    RightControl,
    LeftWindows,
    RightWindows,
}

/// A key, independent of the keyboard's scancode set.
#[derive(Clone, Copy, Debug, PartialEq, Eq, Structural)]
pub enum VirtualKeyCode {
    Number(Number),
    Numpad(Numpad),
    Letter(Letter),
    Control(Control),
    Misc(Misc),
    Function(Function),
    Modifier(Modifier),
}

/// A key going down or coming back up.
#[derive(Clone, Copy, Debug, PartialEq, Eq, Structural)]
pub enum KeyboardEvent {
    Down(VirtualKeyCode),
    Up(VirtualKeyCode),
}

/// One packet of a PS/2 mouse: the buttons held and the relative movement.
#[derive(Clone, Copy, Debug, PartialEq, Eq, Structural)]
pub struct MousePacket {
    pub left: bool,
    pub right: bool,
    pub middle: bool,
    pub x_mov: i8,
    pub y_mov: i8,
}

} // verus!
