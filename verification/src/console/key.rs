//! Keys of the operator's keyboard and the bytes a terminal sends for them.

use vstd::prelude::*;

verus! {

/// A key: a letter, an arrow, space, enter or backspace.
#[derive(Clone, Copy, Debug, PartialEq, Eq, Structural)]
pub enum Key {
    A,
    B,
    C,
    D,
    E,
    F,
    G,
    H,
    I,
    J,
    K,
    L,
    M,
    N,
    O,
    P,
    Q,
    R,
    S,
    T,
    U,
    V,
    W,
    X,
    Y,
    Z,
    ArrowUp,
    ArrowDown,
    ArrowLeft,
    ArrowRight,
    Space,
    Enter,
    Backspace,
}

/// The byte stands for a key by itself: a lower-case letter, a space, a line
/// feed or a delete.
pub open spec fn is_key_byte(byte: u8) -> bool {
    (0x61 <= byte <= 0x7a) || byte == 0x20 || byte == 0x0a || byte == 0x7f
}

/// The key that a byte stands for; meaningful when `is_key_byte(byte)`.
pub open spec fn key_of_byte(byte: u8) -> Key {
    if byte == 0x61 {
        Key::A
    } else if byte == 0x62 {
        Key::B
    } else if byte == 0x63 {
        Key::C
    } else if byte == 0x64 {
        Key::D
    } else if byte == 0x65 {
        Key::E
    } else if byte == 0x66 {
        Key::F
    } else if byte == 0x67 {
        Key::G
    } else if byte == 0x68 {
        Key::H
    } else if byte == 0x69 {
        Key::I
    } else if byte == 0x6a {
        Key::J
    } else if byte == 0x6b {
        Key::K
    } else if byte == 0x6c {
        Key::L
    } else if byte == 0x6d {
        Key::M
    } else if byte == 0x6e {
        Key::N
    } else if byte == 0x6f {
        Key::O
    } else if byte == 0x70 {
        Key::P
    } else if byte == 0x71 {
        Key::Q
    } else if byte == 0x72 {
        Key::R
    } else if byte == 0x73 {
        Key::S
    } else if byte == 0x74 {
        Key::T
    } else if byte == 0x75 {
        Key::U
    } else if byte == 0x76 {
        Key::V
    } else if byte == 0x77 {
        Key::W
    } else if byte == 0x78 {
        Key::X
    } else if byte == 0x79 {
        Key::Y
    } else if byte == 0x7a {
        Key::Z
    } else if byte == 0x20 {
        Key::Space
    } else if byte == 0x0a {
        Key::Enter
    } else {
        Key::Backspace
    }
}

/// The key that a byte sequence stands for: an arrow for its escape
/// sequence, a letter for a single lower-case letter, nothing otherwise.
pub open spec fn key_of_bytes(buf: Seq<u8>) -> Option<Key> {
    if buf.len() == 3 && buf[0] == 0x1b && buf[1] == 0x5b {
        if buf[2] == 0x41 {
            Some(Key::ArrowUp)
        } else if buf[2] == 0x42 {
            Some(Key::ArrowDown)
        } else if buf[2] == 0x43 {
            Some(Key::ArrowRight)
        } else if buf[2] == 0x44 {
            Some(Key::ArrowLeft)
        } else {
            None
        }
    } else if buf.len() == 1 && 0x61 <= buf[0] <= 0x7a {
        Some(key_of_byte(buf[0]))
    } else {
        None
    }
}

impl Key {
    /// The key that `byte` stands for. The byte has to be one that stands
    /// for a key.
    pub fn from_byte(byte: u8) -> (key: Key)
        requires
            is_key_byte(byte),
        ensures
            key == key_of_byte(byte),
    {
        match byte {
            0x61 => Key::A,
            0x62 => Key::B,
            0x63 => Key::C,
            0x64 => Key::D,
            0x65 => Key::E,
            0x66 => Key::F,
            0x67 => Key::G,
            0x68 => Key::H,
            0x69 => Key::I,
            0x6a => Key::J,
            0x6b => Key::K,
            0x6c => Key::L,
            0x6d => Key::M,
            0x6e => Key::N,
            0x6f => Key::O,
            0x70 => Key::P,
            0x71 => Key::Q,
            0x72 => Key::R,
            0x73 => Key::S,
            0x74 => Key::T,
            0x75 => Key::U,
            0x76 => Key::V,
            0x77 => Key::W,
            0x78 => Key::X,
            0x79 => Key::Y,
            0x7a => Key::Z,
            0x20 => Key::Space,
            0x0a => Key::Enter,
            _ => Key::Backspace,
        }
    }

    /// The key that `byte` stands for, or nothing if it stands for none.
    pub fn try_from_byte(byte: u8) -> (key: Option<Key>)
        ensures
            key is Some <==> is_key_byte(byte),
            key is Some ==> key->0 == key_of_byte(byte),
    {
        if (0x61 <= byte && byte <= 0x7a) || byte == 0x20 || byte == 0x0a || byte == 0x7f {
            Some(Key::from_byte(byte))
        } else {
            None
        }
    }

    /// The key that a byte sequence stands for.
    pub fn from_bytes(buf: &[u8]) -> (key: Option<Key>)
        ensures
            key == key_of_bytes(buf@),
    {
        if buf.len() == 3 && buf[0] == 0x1b && buf[1] == 0x5b {
            match buf[2] {
                0x41 => Some(Key::ArrowUp),
                0x42 => Some(Key::ArrowDown),
                0x43 => Some(Key::ArrowRight),
                0x44 => Some(Key::ArrowLeft),
                _ => None,
            }
        } else if buf.len() == 1 && 0x61 <= buf[0] && buf[0] <= 0x7a {
            Some(Key::from_byte(buf[0]))
        } else {
            None
        }
    }

    /// The key that ends an escape sequence whose first two bytes were read
    /// already: `third` is the byte that followed them.
    pub fn from_escape(third: u8) -> (key: Option<Key>)
        ensures
            key == key_of_bytes(seq![0x1bu8, 0x5bu8, third]),
    {
        let buf: [u8; 3] = [0x1b, 0x5b, third];
        let key = Key::from_bytes(buf.as_slice());
        assert(buf@ =~= seq![0x1bu8, 0x5bu8, third]);
        key
    }
}

} // verus!
