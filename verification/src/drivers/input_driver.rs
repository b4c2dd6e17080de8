//! The keyboard layout: which keyboard key stands for which key of the pad.

use vstd::prelude::*;

verus! {

/// A key of the host keyboard, as far as the machine cares: the sixteen keys
/// that stand for the pad, the escape key, and anything else.
#[derive(Clone, Copy, Debug, PartialEq, Eq, Structural)]
pub enum Key {
    Num1,
    Num2,
    Num3,
    Num4,
    Q,
    W,
    E,
    R,
    A,
    S,
    D,
    F,
    Z,
    X,
    C,
    V,
    Escape,
    Other,
}

/// The pad key that a keyboard key stands for. The four rows of the
/// keyboard block `1234 / QWER / ASDF / ZXCV` are the four rows of the pad
/// `123C / 456D / 789E / A0BF`.
pub open spec fn keypad_index(key: Key) -> Option<usize> {
    match key {
        Key::Num1 => Some(0x1),
        Key::Num2 => Some(0x2),
        Key::Num3 => Some(0x3),
        Key::Num4 => Some(0xC),
        Key::Q => Some(0x4),
        Key::W => Some(0x5),
        Key::E => Some(0x6),
        Key::R => Some(0xD),
        Key::A => Some(0x7),
        Key::S => Some(0x8),
        Key::D => Some(0x9),
        Key::F => Some(0xE),
        Key::Z => Some(0xA),
        Key::X => Some(0x0),
        Key::C => Some(0xB),
        Key::V => Some(0xF),
        Key::Escape | Key::Other => None,
    }
}

/// The keyboard key that stands for pad key `index`.
pub open spec fn key_for(index: int) -> Key {
    if index == 0x0 {
        Key::X
    } else if index == 0x1 {
        Key::Num1
    } else if index == 0x2 {
        Key::Num2
    } else if index == 0x3 {
        Key::Num3
    } else if index == 0x4 {
        Key::Q
    } else if index == 0x5 {
        Key::W
    } else if index == 0x6 {
        Key::E
    } else if index == 0x7 {
        Key::A
    } else if index == 0x8 {
        Key::S
    } else if index == 0x9 {
        Key::D
    } else if index == 0xA {
        Key::Z
    } else if index == 0xB {
        Key::C
    } else if index == 0xC {
        Key::Num4
    } else if index == 0xD {
        Key::R
    } else if index == 0xE {
        Key::F
    } else {
        Key::V
    }
}

/// Maps a keyboard key to the pad key it stands for, if any.
pub fn process_input(key: Key) -> (r: Option<usize>)
    ensures
        r == keypad_index(key),
        r matches Some(k) ==> k < 16,
{
    match key {
        Key::Num1 => Some(0x1),
        Key::Num2 => Some(0x2),
        Key::Num3 => Some(0x3),
        Key::Num4 => Some(0xC),
        Key::Q => Some(0x4),
        Key::W => Some(0x5),
        Key::E => Some(0x6),
        Key::R => Some(0xD),
        Key::A => Some(0x7),
        Key::S => Some(0x8),
        Key::D => Some(0x9),
        Key::F => Some(0xE),
        Key::Z => Some(0xA),
        Key::X => Some(0x0),
        Key::C => Some(0xB),
        Key::V => Some(0xF),
        _ => None,
    }
}

/// Every pad key has exactly one keyboard key: `key_for` and `keypad_index`
/// undo each other.
pub proof fn law_layout_is_one_to_one()
    ensures
        forall|i: int| 0 <= i < 16 ==> #[trigger] keypad_index(key_for(i)) == Some(i as usize),
        forall|key: Key| #[trigger]
            keypad_index(key) matches Some(i) ==> i < 16 && key_for(i as int) == key,
{
}

} // verus!
