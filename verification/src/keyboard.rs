//! The keypad collaborator interface: the sixteen hexadecimal keys, the
//! out-of-band escape signal, and the mapping from terminal input bytes to
//! keys.
use vstd::prelude::*;

verus! {

/// One of the sixteen hexadecimal keys, or the out-of-band quit signal.
#[derive(Debug, PartialEq, Eq, Structural, Copy, Clone)]
pub enum Key {
    Key0,
    Key1,
    Key2,
    Key3,
    Key4,
    Key5,
    Key6,
    Key7,
    Key8,
    Key9,
    KeyA,
    KeyB,
    KeyC,
    KeyD,
    KeyE,
    KeyF,
    KeyESC,
}

impl Key {
    /// The numeric value a key stands for; the escape signal carries the
    /// sentinel value 0xff, which no hexadecimal key can equal.
    pub open spec fn spec_value(self) -> u8 {
        match self {
            Key::Key0 => 0x0,
            Key::Key1 => 0x1,
            Key::Key2 => 0x2,
            Key::Key3 => 0x3,
            Key::Key4 => 0x4,
            Key::Key5 => 0x5,
            Key::Key6 => 0x6,
            Key::Key7 => 0x7,
            Key::Key8 => 0x8,
            Key::Key9 => 0x9,
            Key::KeyA => 0xa,
            Key::KeyB => 0xb,
            Key::KeyC => 0xc,
            Key::KeyD => 0xd,
            Key::KeyE => 0xe,
            Key::KeyF => 0xf,
            Key::KeyESC => 0xff,
        }
    }

    #[verifier::when_used_as_spec(spec_value)]
    pub fn value(self) -> (v: u8)
        ensures
            v == self.spec_value(),
    {
        match self {
            Key::Key0 => 0x0,
            Key::Key1 => 0x1,
            Key::Key2 => 0x2,
            Key::Key3 => 0x3,
            Key::Key4 => 0x4,
            Key::Key5 => 0x5,
            Key::Key6 => 0x6,
            Key::Key7 => 0x7,
            Key::Key8 => 0x8,
            Key::Key9 => 0x9,
            Key::KeyA => 0xa,
            Key::KeyB => 0xb,
            Key::KeyC => 0xc,
            Key::KeyD => 0xd,
            Key::KeyE => 0xe,
            Key::KeyF => 0xf,
            Key::KeyESC => 0xff,
        }
    }
}

/// A keypad backend. `get_pressed_key` is a non-blocking poll;
/// `wait_for_key_press` blocks until the user presses a key or asks to quit.
/// What comes back depends on the user, so nothing is promised of it.
pub trait Keyboard {
    fn wait_for_key_press(&mut self) -> Key;

    fn get_pressed_key(&mut self) -> Option<Key>;
}

/// The mapping a terminal backend uses from an input byte to a key: the
/// left-hand block of a QWERTY keyboard stands for the 4x4 keypad, and the
/// escape byte (27) stands for the quit signal.
pub open spec fn spec_match_byte(key: u8) -> Option<Key> {
    match key {
        49u8 => Some(Key::Key1),
        50u8 => Some(Key::Key2),
        51u8 => Some(Key::Key3),
        52u8 => Some(Key::KeyC),
        113u8 => Some(Key::Key4),
        119u8 => Some(Key::Key5),
        101u8 => Some(Key::Key6),
        114u8 => Some(Key::KeyD),
        97u8 => Some(Key::Key7),
        115u8 => Some(Key::Key8),
        100u8 => Some(Key::Key9),
        102u8 => Some(Key::KeyE),
        122u8 => Some(Key::KeyA),
        120u8 => Some(Key::Key0),
        99u8 => Some(Key::KeyB),
        118u8 => Some(Key::KeyF),
        27u8 => Some(Key::KeyESC),
        _ => None,
    }
}

#[verifier::when_used_as_spec(spec_match_byte)]
pub fn match_byte(key: u8) -> (k: Option<Key>)
    ensures
        k == spec_match_byte(key),
{
    match key {
        49 => Some(Key::Key1),
        50 => Some(Key::Key2),
        51 => Some(Key::Key3),
        52 => Some(Key::KeyC),
        113 => Some(Key::Key4),
        119 => Some(Key::Key5),
        101 => Some(Key::Key6),
        114 => Some(Key::KeyD),
        97 => Some(Key::Key7),
        115 => Some(Key::Key8),
        100 => Some(Key::Key9),
        102 => Some(Key::KeyE),
        122 => Some(Key::KeyA),
        120 => Some(Key::Key0),
        99 => Some(Key::KeyB),
        118 => Some(Key::KeyF),
        27 => Some(Key::KeyESC),
        _ => None,
    }
}

} // verus!
