use fioxa::console::{InputServiceMessage, KBInputDecoder};
use fioxa::keys::{
    Control, KeyboardEvent, Letter, Misc, Modifier, MousePacket, Number, Numpad, VirtualKeyCode,
};
use fioxa::scancode::{Scancode, ScancodeSet2};
use fioxa::us_keyboard::USKeymap;

fn down(k: VirtualKeyCode) -> InputServiceMessage {
    InputServiceMessage::KeyboardEvent(KeyboardEvent::Down(k))
}

fn up(k: VirtualKeyCode) -> InputServiceMessage {
    InputServiceMessage::KeyboardEvent(KeyboardEvent::Up(k))
}

#[test]
fn letters_follow_shift_and_caps() {
    let a = VirtualKeyCode::Letter(Letter::A);
    assert_eq!(USKeymap::get_unicode(a, false, false, false, false), 'a');
    assert_eq!(USKeymap::get_unicode(a, true, false, false, false), 'A');
    assert_eq!(USKeymap::get_unicode(a, false, true, false, false), 'A');
    assert_eq!(USKeymap::get_unicode(a, false, false, true, false), 'A');
    assert_eq!(USKeymap::get_unicode(a, true, false, true, false), 'a');
}

#[test]
fn numbers_follow_shift_only() {
    let n1 = VirtualKeyCode::Number(Number::N1);
    assert_eq!(USKeymap::get_unicode(n1, false, false, false, false), '1');
    assert_eq!(USKeymap::get_unicode(n1, true, false, false, false), '!');
    assert_eq!(USKeymap::get_unicode(n1, false, false, true, false), '1');
    let n0 = VirtualKeyCode::Number(Number::N0);
    assert_eq!(USKeymap::get_unicode(n0, false, true, false, false), ')');
}

#[test]
fn numpad_follows_num_lock() {
    let n7 = VirtualKeyCode::Numpad(Numpad::N7);
    assert_eq!(USKeymap::get_unicode(n7, false, false, false, true), '7');
    assert_eq!(USKeymap::get_unicode(n7, false, false, false, false), '\0');
    let enter = VirtualKeyCode::Numpad(Numpad::Enter);
    assert_eq!(USKeymap::get_unicode(enter, false, false, false, false), '\n');
}

#[test]
fn control_and_misc_keys() {
    assert_eq!(
        USKeymap::get_unicode(VirtualKeyCode::Control(Control::Space), false, false, false, false),
        ' '
    );
    assert_eq!(
        USKeymap::get_unicode(VirtualKeyCode::Control(Control::Enter), false, false, false, false),
        '\n'
    );
    assert_eq!(
        USKeymap::get_unicode(VirtualKeyCode::Misc(Misc::Comma), false, false, false, false),
        ','
    );
    assert_eq!(
        USKeymap::get_unicode(VirtualKeyCode::Misc(Misc::Comma), true, false, false, false),
        '<'
    );
}

#[test]
fn set2_press_and_release() {
    let mut s = ScancodeSet2::new();
    assert_eq!(
        s.add_byte(0x1C),
        Some(KeyboardEvent::Down(VirtualKeyCode::Letter(Letter::A)))
    );
    assert_eq!(s.add_byte(0xF0), None);
    assert_eq!(
        s.add_byte(0x1C),
        Some(KeyboardEvent::Up(VirtualKeyCode::Letter(Letter::A)))
    );
}

#[test]
fn set2_extended_press_and_release() {
    let mut s = ScancodeSet2::default();
    assert_eq!(s.add_byte(0xE0), None);
    assert_eq!(
        s.add_byte(0x75),
        Some(KeyboardEvent::Down(VirtualKeyCode::Control(Control::ArrowUp)))
    );
    assert_eq!(s.add_byte(0xE0), None);
    assert_eq!(s.add_byte(0xF0), None);
    assert_eq!(
        s.add_byte(0x75),
        Some(KeyboardEvent::Up(VirtualKeyCode::Control(Control::ArrowUp)))
    );
}

#[test]
fn set2_ack_is_ignored() {
    let mut s = ScancodeSet2::new();
    assert_eq!(s.add_byte(0xF0), None);
    assert_eq!(s.add_byte(0xFA), None);
    assert_eq!(
        s.add_byte(0x12),
        Some(KeyboardEvent::Up(VirtualKeyCode::Modifier(Modifier::LeftShift)))
    );
}

#[test]
fn set2_unknown_code_gives_nothing() {
    let mut s = ScancodeSet2::new();
    assert_eq!(s.add_byte(0x02), None);
    assert_eq!(
        s.add_byte(0x15),
        Some(KeyboardEvent::Down(VirtualKeyCode::Letter(Letter::Q)))
    );
}

#[test]
fn decoder_applies_shift_until_released() {
    let mut d = KBInputDecoder::new();
    let shift = VirtualKeyCode::Modifier(Modifier::LeftShift);
    let b = VirtualKeyCode::Letter(Letter::B);
    assert_eq!(d.feed(down(shift)), None);
    assert_eq!(d.feed(down(b)), Some('B'));
    assert_eq!(d.feed(up(b)), None);
    assert_eq!(d.feed(up(shift)), None);
    assert_eq!(d.feed(down(b)), Some('b'));
}

#[test]
fn decoder_caps_lock_toggles() {
    let mut d = KBInputDecoder::new();
    let caps = VirtualKeyCode::Modifier(Modifier::CapsLock);
    let c = VirtualKeyCode::Letter(Letter::C);
    d.feed(down(caps));
    d.feed(up(caps));
    assert_eq!(d.feed(down(c)), Some('C'));
    d.feed(down(caps));
    assert_eq!(d.feed(down(c)), Some('c'));
}

#[test]
fn decoder_buffers_typed_text() {
    let mut d = KBInputDecoder::new();
    assert!(d.buffer_is_empty());
    d.feed_buffered(down(VirtualKeyCode::Letter(Letter::H)));
    d.feed_buffered(up(VirtualKeyCode::Letter(Letter::H)));
    d.feed_buffered(down(VirtualKeyCode::Number(Number::N2)));
    assert_eq!(d.buffer(), "h2");
    assert!(!d.buffer_is_empty());
    d.clear_buffer();
    assert!(d.buffer_is_empty());
}

#[test]
fn mouse_packet_holds_values() {
    let p = MousePacket { left: true, right: false, middle: false, x_mov: -3, y_mov: 4 };
    assert_eq!(p.x_mov, -3);
    assert!(p.left);
}
