//! A small 32-bit virtual processor with a fixed-width, DLX-style
//! instruction set, together with the pieces that surround it: the
//! byte-addressable storage variants that back its memory, an assembler
//! for the matching textual language, and the on-disk executable
//! container used to persist an assembled program.

use vstd::prelude::*;

pub mod assembler;
pub mod constants;
pub mod endian;
pub mod executable;
pub mod instructions;
pub mod memory;
pub mod numbers;
pub mod processor;
pub mod register;

verus! {

/// An unsigned 32-bit machine word: the unit of instruction encoding and
/// the primary register width.
pub type Word = u32;

/// The signed 16-bit immediate operand carried by I-format instructions.
pub type Immediate = i16;

/// The signed 26-bit address operand carried by J-format instructions,
/// stored sign-extended in 32 bits.
pub type Address = i32;

} // verus!
