use vstd::prelude::*;

verus! {

/// A memory address (12 significant bits are used).
pub type Address = u16;

/// An 8-bit value: a register's content or a memory cell.
pub type Byte = u8;

/// A 16-bit instruction word as fetched from memory.
pub type Instruction = u16;

/// The index of one of the sixteen general registers.
pub type Register = usize;

/// A 4-bit quantity.
pub type Nibble = u8;

} // verus!
