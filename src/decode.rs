use vstd::prelude::*;

use crate::types::{Address, Byte, Instruction, Nibble, Register};

verus! {

/// One decoded instruction, with its operands.
#[derive(Debug, Clone, Copy, PartialEq, Eq, Structural)]
pub enum Decoded {
    Add(Register, Byte),
    AddIndex(Register),
    AddXY(Register, Register),
    And(Register, Register),
    Call(Address),
    ClearScreen,
    Decimal(Register),
    DelayTimerGet(Register),
    DelayTimerSet(Register),
    Draw(Register, Register, Nibble),
    FontChar(Register),
    GetKey(Register),
    Jump(Address),
    Load(Register),
    Move(Register, Byte),
    MoveIndex(Address),
    MoveXY(Register, Register),
    Or(Register, Register),
    Random(Register, Byte),
    Return,
    SetSoundTimer(Register),
    ShiftLeft(Register, Register),
    ShiftRight(Register, Register),
    SkipEqual(Register, Byte),
    SkipEqualXY(Register, Register),
    SkipKey(Register),
    SkipNotEqual(Register, Byte),
    SkipNotEqualXY(Register, Register),
    SkipNotKey(Register),
    Store(Register),
    SubXY(Register, Register),
    SubYX(Register, Register),
    Xor(Register, Register),
    Illegal(Instruction),
}

/// Bits 15..12: the instruction family.
pub open spec fn family_of(w: u16) -> u8 {
    (w / 4096) as u8
}

/// Bits 11..8: the first register operand.
pub open spec fn x_of(w: u16) -> usize {
    ((w / 256) % 16) as usize
}

/// Bits 7..4: the second register operand.
pub open spec fn y_of(w: u16) -> usize {
    ((w / 16) % 16) as usize
}

/// Bits 3..0.
pub open spec fn n_of(w: u16) -> u8 {
    (w % 16) as u8
}

/// Bits 7..0.
pub open spec fn nn_of(w: u16) -> u8 {
    (w % 256) as u8
}

/// Bits 11..0.
pub open spec fn nnn_of(w: u16) -> u16 {
    w % 4096
}

/// The operation that the instruction word `w` encodes.
pub open spec fn decode_spec(w: u16) -> Decoded {
    let x = x_of(w);
    let y = y_of(w);
    let n = n_of(w);
    let nn = nn_of(w);
    let nnn = nnn_of(w);
    let f = family_of(w);
    if f == 0x0 {
        if w == 0x00E0 {
            Decoded::ClearScreen
        } else if w == 0x00EE {
            Decoded::Return
        } else {
            Decoded::Illegal(w)
        }
    } else if f == 0x1 {
        Decoded::Jump(nnn)
    } else if f == 0x2 {
        Decoded::Call(nnn)
    } else if f == 0x3 {
        Decoded::SkipEqual(x, nn)
    } else if f == 0x4 {
        Decoded::SkipNotEqual(x, nn)
    } else if f == 0x5 && n == 0 {
        Decoded::SkipEqualXY(x, y)
    } else if f == 0x6 {
        Decoded::Move(x, nn)
    } else if f == 0x7 {
        Decoded::Add(x, nn)
    } else if f == 0x8 {
        if n == 0x0 {
            Decoded::MoveXY(x, y)
        } else if n == 0x1 {
            Decoded::Or(x, y)
        } else if n == 0x2 {
            Decoded::And(x, y)
        } else if n == 0x3 {
            Decoded::Xor(x, y)
        } else if n == 0x4 {
            Decoded::AddXY(x, y)
        } else if n == 0x5 {
            Decoded::SubXY(x, y)
        } else if n == 0x6 {
            Decoded::ShiftRight(x, y)
        } else if n == 0x7 {
            Decoded::SubYX(x, y)
        } else if n == 0xE {
            Decoded::ShiftLeft(x, y)
        } else {
            Decoded::Illegal(w)
        }
    } else if f == 0x9 && n == 0 {
        Decoded::SkipNotEqualXY(x, y)
    } else if f == 0xA {
        Decoded::MoveIndex(nnn)
    } else if f == 0xC {
        Decoded::Random(x, nn)
    } else if f == 0xD {
        Decoded::Draw(x, y, n)
    } else if f == 0xE && nn == 0x9E {
        Decoded::SkipKey(x)
    } else if f == 0xE && nn == 0xA1 {
        Decoded::SkipNotKey(x)
    } else if f == 0xF {
        if nn == 0x07 {
            Decoded::DelayTimerGet(x)
        } else if nn == 0x0A {
            Decoded::GetKey(x)
        } else if nn == 0x15 {
            Decoded::DelayTimerSet(x)
        } else if nn == 0x18 {
            Decoded::SetSoundTimer(x)
        } else if nn == 0x1E {
            Decoded::AddIndex(x)
        } else if nn == 0x29 {
            Decoded::FontChar(x)
        } else if nn == 0x33 {
            Decoded::Decimal(x)
        } else if nn == 0x55 {
            Decoded::Store(x)
        } else if nn == 0x65 {
            Decoded::Load(x)
        } else {
            Decoded::Illegal(w)
        }
    } else {
        Decoded::Illegal(w)
    }
}

/// Register operands name one of the sixteen registers, addresses have 12
/// bits and sprite heights 4 bits: what every decoded word satisfies.
pub open spec fn valid_operands(op: Decoded) -> bool {
    match op {
        Decoded::Add(x, _) => x < 16,
        Decoded::AddIndex(x) => x < 16,
        Decoded::AddXY(x, y) => x < 16 && y < 16,
        Decoded::And(x, y) => x < 16 && y < 16,
        Decoded::Call(nnn) => nnn < 4096,
        Decoded::ClearScreen => true,
        Decoded::Decimal(x) => x < 16,
        Decoded::DelayTimerGet(x) => x < 16,
        Decoded::DelayTimerSet(x) => x < 16,
        Decoded::Draw(x, y, n) => x < 16 && y < 16 && n < 16,
        Decoded::FontChar(x) => x < 16,
        Decoded::GetKey(x) => x < 16,
        Decoded::Jump(nnn) => nnn < 4096,
        Decoded::Load(x) => x < 16,
        Decoded::Move(x, _) => x < 16,
        Decoded::MoveIndex(nnn) => nnn < 4096,
        Decoded::MoveXY(x, y) => x < 16 && y < 16,
        Decoded::Or(x, y) => x < 16 && y < 16,
        Decoded::Random(x, _) => x < 16,
        Decoded::Return => true,
        Decoded::SetSoundTimer(x) => x < 16,
        Decoded::ShiftLeft(x, y) => x < 16 && y < 16,
        Decoded::ShiftRight(x, y) => x < 16 && y < 16,
        Decoded::SkipEqual(x, _) => x < 16,
        Decoded::SkipEqualXY(x, y) => x < 16 && y < 16,
        Decoded::SkipKey(x) => x < 16,
        Decoded::SkipNotEqual(x, _) => x < 16,
        Decoded::SkipNotEqualXY(x, y) => x < 16 && y < 16,
        Decoded::SkipNotKey(x) => x < 16,
        Decoded::Store(x) => x < 16,
        Decoded::SubXY(x, y) => x < 16 && y < 16,
        Decoded::SubYX(x, y) => x < 16 && y < 16,
        Decoded::Xor(x, y) => x < 16 && y < 16,
        Decoded::Illegal(_) => true,
    }
}

/// Decodes one instruction word. Every word yields an operation; a word
/// that encodes none yields `Illegal` carrying the word.
pub fn decode(i: Instruction) -> (r: Decoded)
    ensures
        r == decode_spec(i),
        valid_operands(r),
{
    match a(i) {
        0x0 => a0(i),
        0x1 => Decoded::Jump(nnn(i)),
        0x2 => Decoded::Call(nnn(i)),
        0x3 => Decoded::SkipEqual(x(i), nn(i)),
        0x4 => Decoded::SkipNotEqual(x(i), nn(i)),
        0x5 => if n(i) == 0 {
            Decoded::SkipEqualXY(x(i), y(i))
        } else {
            Decoded::Illegal(i)
        },
        0x6 => Decoded::Move(x(i), nn(i)),
        0x7 => Decoded::Add(x(i), nn(i)),
        0x8 => a8(i),
        0x9 => if n(i) == 0 {
            Decoded::SkipNotEqualXY(x(i), y(i))
        } else {
            Decoded::Illegal(i)
        },
        0xA => Decoded::MoveIndex(nnn(i)),
        0xC => Decoded::Random(x(i), nn(i)),
        0xD => Decoded::Draw(x(i), y(i), n(i)),
        0xE => ae(i),
        0xF => af(i),
        _ => Decoded::Illegal(i),
    }
}

fn a(i: Instruction) -> (r: Nibble)
    ensures
        r == family_of(i),
        r < 16,
{
    assert((i >> 12) & 0xF == i / 4096) by (bit_vector);
    ((i >> 12) & 0xF) as Nibble
}

fn x(i: Instruction) -> (r: Register)
    ensures
        r == x_of(i),
        r < 16,
{
    assert((i >> 8) & 0xF == (i / 256) % 16) by (bit_vector);
    ((i >> 8) & 0xF) as Register
}

fn y(i: Instruction) -> (r: Register)
    ensures
        r == y_of(i),
        r < 16,
{
    assert((i >> 4) & 0xF == (i / 16) % 16) by (bit_vector);
    ((i >> 4) & 0xF) as Register
}

fn nnn(i: Instruction) -> (r: Address)
    ensures
        r == nnn_of(i),
        r < 4096,
{
    assert(i & 0xFFF == i % 4096) by (bit_vector);
    (i & 0xFFF) as Address
}

fn nn(i: Instruction) -> (r: Byte)
    ensures
        r == nn_of(i),
{
    assert(i & 0xFF == i % 256) by (bit_vector);
    (i & 0xFF) as Byte
}

fn n(i: Instruction) -> (r: Nibble)
    ensures
        r == n_of(i),
        r < 16,
{
    assert(i & 0xF == i % 16) by (bit_vector);
    (i & 0xF) as Nibble
}

fn a0(i: Instruction) -> (r: Decoded)
    requires
        family_of(i) == 0,
    ensures
        r == decode_spec(i),
{
    match i {
        0x00E0 => Decoded::ClearScreen,
        0x00EE => Decoded::Return,
        _ => Decoded::Illegal(i),
    }
}

fn a8(i: Instruction) -> (r: Decoded)
    requires
        family_of(i) == 8,
    ensures
        r == decode_spec(i),
{
    match n(i) {
        0x0 => Decoded::MoveXY(x(i), y(i)),
        0x1 => Decoded::Or(x(i), y(i)),
        0x2 => Decoded::And(x(i), y(i)),
        0x3 => Decoded::Xor(x(i), y(i)),
        0x4 => Decoded::AddXY(x(i), y(i)),
        0x5 => Decoded::SubXY(x(i), y(i)),
        0x6 => Decoded::ShiftRight(x(i), y(i)),
        0x7 => Decoded::SubYX(x(i), y(i)),
        0xE => Decoded::ShiftLeft(x(i), y(i)),
        _ => Decoded::Illegal(i),
    }
}

fn ae(i: Instruction) -> (r: Decoded)
    requires
        family_of(i) == 0xE,
    ensures
        r == decode_spec(i),
{
    match nn(i) {
        0x9E => Decoded::SkipKey(x(i)),
        0xA1 => Decoded::SkipNotKey(x(i)),
        _ => Decoded::Illegal(i),
    }
}

fn af(i: Instruction) -> (r: Decoded)
    requires
        family_of(i) == 0xF,
    ensures
        r == decode_spec(i),
{
    match nn(i) {
        0x07 => Decoded::DelayTimerGet(x(i)),
        0x0A => Decoded::GetKey(x(i)),
        0x15 => Decoded::DelayTimerSet(x(i)),
        0x18 => Decoded::SetSoundTimer(x(i)),
        0x1E => Decoded::AddIndex(x(i)),
        0x29 => Decoded::FontChar(x(i)),
        0x33 => Decoded::Decimal(x(i)),
        0x55 => Decoded::Store(x(i)),
        0x65 => Decoded::Load(x(i)),
        _ => Decoded::Illegal(i),
    }
}

/// Whether `w` matches one of the rows of the instruction table.
pub open spec fn is_listed(w: u16) -> bool {
    let f = family_of(w);
    let n = n_of(w);
    let nn = nn_of(w);
    ||| w == 0x00E0 || w == 0x00EE
    ||| 0x1 <= f <= 0x4 || (0x6 <= f <= 0x7) || f == 0xA || f == 0xC || f == 0xD
    ||| (f == 0x5 || f == 0x9) && n == 0
    ||| f == 0x8 && (n <= 0x7 || n == 0xE)
    ||| f == 0xE && (nn == 0x9E || nn == 0xA1)
    ||| f == 0xF && (nn == 0x07 || nn == 0x0A || nn == 0x15 || nn == 0x18 || nn == 0x1E
        || nn == 0x29 || nn == 0x33 || nn == 0x55 || nn == 0x65)
}

/// Decoding is total, and it yields `Illegal` exactly on the words that match
/// no row of the instruction table; an illegal word is carried unchanged.
pub proof fn lemma_illegal_exactly_unlisted(w: u16)
    ensures
        decode_spec(w) is Illegal <==> !is_listed(w),
        decode_spec(w) is Illegal ==> decode_spec(w) == Decoded::Illegal(w),
{
}

/// Some words are illegal: the `Illegal` case is reachable.
pub proof fn lemma_illegal_reachable()
    ensures
        decode_spec(0xFFFF) == Decoded::Illegal(0xFFFF),
        decode_spec(0x5001) == Decoded::Illegal(0x5001),
{
}

} // verus!
