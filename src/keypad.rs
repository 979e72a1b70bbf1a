use vstd::prelude::*;

verus! {

/// The sixteen host keys of the keypad, laid out as a 4 x 4 grid:
/// `1 2 3 4` / `Q W E R` / `A S D F` / `Z X C V`.
#[derive(Debug, Clone, Copy, PartialEq, Eq, Structural)]
pub enum Key {
    Key1,
    Key2,
    Key3,
    Key4,
    Q,
    W,
    E,
    R,
    A,
    S,
    D,
    F,
    Z,
    X,
    C,
    V,
}

/// The hex key code that each host key stands for:
/// `1 2 3 C` / `4 5 6 D` / `7 8 9 E` / `A 0 B F`.
pub open spec fn key_code(key: Key) -> u8 {
    match key {
        Key::Key1 => 0x1,
        Key::Key2 => 0x2,
        Key::Key3 => 0x3,
        Key::Key4 => 0xC,
        Key::Q => 0x4,
        Key::W => 0x5,
        Key::E => 0x6,
        Key::R => 0xD,
        Key::A => 0x7,
        Key::S => 0x8,
        Key::D => 0x9,
        Key::F => 0xE,
        Key::Z => 0xA,
        Key::X => 0x0,
        Key::C => 0xB,
        Key::V => 0xF,
    }
}

/// Whether a key with code `code` is among the pressed keys.
pub open spec fn key_pressed(keys: Seq<Key>, code: u8) -> bool {
    exists|j: int| 0 <= j < keys.len() && key_code(#[trigger] keys[j]) == code
}

/// The hex key code of a host key.
pub fn key_to_byte(key: Key) -> (r: u8)
    ensures
        r == key_code(key),
        r < 16,
{
    match key {
        Key::Key1 => 0x1,
        Key::Key2 => 0x2,
        Key::Key3 => 0x3,
        Key::Key4 => 0xC,
        Key::Q => 0x4,
        Key::W => 0x5,
        Key::E => 0x6,
        Key::R => 0xD,
        Key::A => 0x7,
        Key::S => 0x8,
        Key::D => 0x9,
        Key::F => 0xE,
        Key::Z => 0xA,
        Key::X => 0x0,
        Key::C => 0xB,
        Key::V => 0xF,
    }
}

/// The host key that stands for a hex key code.
pub fn byte_to_key(byte: u8) -> (r: Key)
    requires
        byte < 16,
    ensures
        key_code(r) == byte,
{
    match byte {
        0x1 => Key::Key1,
        0x2 => Key::Key2,
        0x3 => Key::Key3,
        0xC => Key::Key4,
        0x4 => Key::Q,
        0x5 => Key::W,
        0x6 => Key::E,
        0xD => Key::R,
        0x7 => Key::A,
        0x8 => Key::S,
        0x9 => Key::D,
        0xE => Key::F,
        0xA => Key::Z,
        0x0 => Key::X,
        0xB => Key::C,
        _ => Key::V,
    }
}

/// Whether any key is among the pressed keys whose code is `code`.
pub fn is_pressed(keys: &Vec<Key>, code: u8) -> (r: bool)
    ensures
        r == key_pressed(keys@, code),
{
    let mut j: usize = 0;
    while j < keys.len()
        invariant
            j <= keys.len(),
            forall|k: int| 0 <= k < j ==> key_code(#[trigger] keys@[k]) != code,
        decreases keys.len() - j,
    {
        if key_to_byte(keys[j]) == code {
            return true;
        }
        j = j + 1;
    }
    false
}

/// The mapping between host keys and hex codes is one to one, and covers
/// every code below 16.
pub proof fn lemma_key_code_bijective(k1: Key, k2: Key, code: u8)
    ensures
        key_code(k1) < 16,
        key_code(k1) == key_code(k2) ==> k1 == k2,
        code < 16 ==> exists|k: Key| key_code(k) == code,
{
    if code < 16 {
        let k = if code == 0x1 {
            Key::Key1
        } else if code == 0x2 {
            Key::Key2
        } else if code == 0x3 {
            Key::Key3
        } else if code == 0xC {
            Key::Key4
        } else if code == 0x4 {
            Key::Q
        } else if code == 0x5 {
            Key::W
        } else if code == 0x6 {
            Key::E
        } else if code == 0xD {
            Key::R
        } else if code == 0x7 {
            Key::A
        } else if code == 0x8 {
            Key::S
        } else if code == 0x9 {
            Key::D
        } else if code == 0xE {
            Key::F
        } else if code == 0xA {
            Key::Z
        } else if code == 0x0 {
            Key::X
        } else if code == 0xB {
            Key::C
        } else {
            Key::V
        };
        assert(key_code(k) == code);
    }
}

} // verus!
