//! An emulator core for a small 8-bit virtual machine: instruction decoder,
//! execution engine, monochrome display model and delay timer.
//!
//! Conventions where the instruction set leaves a choice:
//! - every memory access (fetch, load, store, decimal, sprite rows) is taken
//!   modulo the 4096 bytes of memory, and the program counter wraps the same
//!   way;
//! - `AddXY`, `SubXY` and `SubYX` wrap and leave the flag register alone;
//! - shifts first copy the source register into the destination;
//! - sprite pixels beyond the right or bottom edge are dropped, while the
//!   origin wraps to the display;
//! - the index register wraps at 16 bits;
//! - `GetKey` with no key pressed leaves the program counter on itself, so
//!   the next step waits again.

pub mod types;
pub mod decode;
pub mod display;
pub mod timer;
pub mod keypad;
pub mod font;
pub mod machine;
pub mod chip;
pub mod hex;
