//! Keys of the keyboard, and small helpers around them.

use vstd::prelude::*;

verus! {

/// A key of the keyboard, as far as the game tells keys apart.
#[derive(Clone, Copy, PartialEq, Eq, Structural, Debug)]
pub enum VirtualKeyCode {
    A,
    B,
    C,
    D,
    E,
    F,
    G,
    H,
    I,
    J,
    K,
    L,
    M,
    N,
    O,
    P,
    Q,
    R,
    S,
    T,
    U,
    V,
    W,
    X,
    Y,
    Z,
    Escape,
    Up,
    Down,
    Left,
    Right,
    Numpad1,
    Numpad2,
    Numpad3,
    Numpad4,
    Numpad6,
    Numpad7,
    Numpad8,
    Numpad9,
    /// Any other key.
    Other,
}

/// The name of a key: its letter for a letter key, `Escape` for the escape
/// key, and `Key` for every other key.
pub open spec fn key_name(key: VirtualKeyCode) -> Seq<char> {
    match key {
        VirtualKeyCode::A => "A"@,
        VirtualKeyCode::B => "B"@,
        VirtualKeyCode::C => "C"@,
        VirtualKeyCode::D => "D"@,
        VirtualKeyCode::E => "E"@,
        VirtualKeyCode::F => "F"@,
        VirtualKeyCode::G => "G"@,
        VirtualKeyCode::H => "H"@,
        VirtualKeyCode::I => "I"@,
        VirtualKeyCode::J => "J"@,
        VirtualKeyCode::K => "K"@,
        VirtualKeyCode::L => "L"@,
        VirtualKeyCode::M => "M"@,
        VirtualKeyCode::N => "N"@,
        VirtualKeyCode::O => "O"@,
        VirtualKeyCode::P => "P"@,
        VirtualKeyCode::Q => "Q"@,
        VirtualKeyCode::R => "R"@,
        VirtualKeyCode::S => "S"@,
        VirtualKeyCode::T => "T"@,
        VirtualKeyCode::U => "U"@,
        VirtualKeyCode::V => "V"@,
        VirtualKeyCode::W => "W"@,
        VirtualKeyCode::X => "X"@,
        VirtualKeyCode::Y => "Y"@,
        VirtualKeyCode::Z => "Z"@,
        VirtualKeyCode::Escape => "Escape"@,
        _ => "Key"@,
    }
}

/// Converts a key to its name.
pub fn virtual_key_code_to_string(key: VirtualKeyCode) -> (name: &'static str)
    ensures
        name@ == key_name(key),
{
    match key {
        VirtualKeyCode::A => "A",
        VirtualKeyCode::B => "B",
        VirtualKeyCode::C => "C",
        VirtualKeyCode::D => "D",
        VirtualKeyCode::E => "E",
        VirtualKeyCode::F => "F",
        VirtualKeyCode::G => "G",
        VirtualKeyCode::H => "H",
        VirtualKeyCode::I => "I",
        VirtualKeyCode::J => "J",
        VirtualKeyCode::K => "K",
        VirtualKeyCode::L => "L",
        VirtualKeyCode::M => "M",
        VirtualKeyCode::N => "N",
        VirtualKeyCode::O => "O",
        VirtualKeyCode::P => "P",
        VirtualKeyCode::Q => "Q",
        VirtualKeyCode::R => "R",
        VirtualKeyCode::S => "S",
        VirtualKeyCode::T => "T",
        VirtualKeyCode::U => "U",
        VirtualKeyCode::V => "V",
        VirtualKeyCode::W => "W",
        VirtualKeyCode::X => "X",
        VirtualKeyCode::Y => "Y",
        VirtualKeyCode::Z => "Z",
        VirtualKeyCode::Escape => "Escape",
        _ => "Key",
    }
}

/// The letter key with the given place in the alphabet, counted from 0.
pub open spec fn alpha_key(value: int) -> VirtualKeyCode {
    if value == 0 {
        VirtualKeyCode::A
    } else if value == 1 {
        VirtualKeyCode::B
    } else if value == 2 {
        VirtualKeyCode::C
    } else if value == 3 {
        VirtualKeyCode::D
    } else if value == 4 {
        VirtualKeyCode::E
    } else if value == 5 {
        VirtualKeyCode::F
    } else if value == 6 {
        VirtualKeyCode::G
    } else if value == 7 {
        VirtualKeyCode::H
    } else if value == 8 {
        VirtualKeyCode::I
    } else if value == 9 {
        VirtualKeyCode::J
    } else if value == 10 {
        VirtualKeyCode::K
    } else if value == 11 {
        VirtualKeyCode::L
    } else if value == 12 {
        VirtualKeyCode::M
    } else if value == 13 {
        VirtualKeyCode::N
    } else if value == 14 {
        VirtualKeyCode::O
    } else if value == 15 {
        VirtualKeyCode::P
    } else if value == 16 {
        VirtualKeyCode::Q
    } else if value == 17 {
        VirtualKeyCode::R
    } else if value == 18 {
        VirtualKeyCode::S
    } else if value == 19 {
        VirtualKeyCode::T
    } else if value == 20 {
        VirtualKeyCode::U
    } else if value == 21 {
        VirtualKeyCode::V
    } else if value == 22 {
        VirtualKeyCode::W
    } else if value == 23 {
        VirtualKeyCode::X
    } else if value == 24 {
        VirtualKeyCode::Y
    } else {
        VirtualKeyCode::Z
    }
}

/// Converts a place in the alphabet, counted from 0, to its letter key.
pub fn i32_to_alpha_key(value: i32) -> (key: VirtualKeyCode)
    requires
        0 <= value <= 25,
    ensures
        key == alpha_key(value as int),
{
    match value {
        0 => VirtualKeyCode::A,
        1 => VirtualKeyCode::B,
        2 => VirtualKeyCode::C,
        3 => VirtualKeyCode::D,
        4 => VirtualKeyCode::E,
        5 => VirtualKeyCode::F,
        6 => VirtualKeyCode::G,
        7 => VirtualKeyCode::H,
        8 => VirtualKeyCode::I,
        9 => VirtualKeyCode::J,
        10 => VirtualKeyCode::K,
        11 => VirtualKeyCode::L,
        12 => VirtualKeyCode::M,
        13 => VirtualKeyCode::N,
        14 => VirtualKeyCode::O,
        15 => VirtualKeyCode::P,
        16 => VirtualKeyCode::Q,
        17 => VirtualKeyCode::R,
        18 => VirtualKeyCode::S,
        19 => VirtualKeyCode::T,
        20 => VirtualKeyCode::U,
        21 => VirtualKeyCode::V,
        22 => VirtualKeyCode::W,
        23 => VirtualKeyCode::X,
        24 => VirtualKeyCode::Y,
        _ => VirtualKeyCode::Z,
    }
}

} // verus!
