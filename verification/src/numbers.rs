//! Two's-complement reinterpretation between the signed and unsigned
//! views of 16-, 32- and 64-bit values, and the sign extensions the
//! instruction set uses.

use vstd::prelude::*;

verus! {

/// The signed value whose 16-bit two's-complement pattern is `x`.
pub open spec fn i16_bits(x: u16) -> i16 {
    if x < 0x8000 {
        x as i16
    } else {
        (x - 0x10000) as i16
    }
}

/// The 16-bit two's-complement pattern of `x`, as unsigned.
pub open spec fn u16_bits(x: i16) -> u16 {
    if x >= 0 {
        x as u16
    } else {
        (x + 0x10000) as u16
    }
}

/// The signed value whose 32-bit two's-complement pattern is `x`.
pub open spec fn i32_bits(x: u32) -> i32 {
    if x < 0x8000_0000 {
        x as i32
    } else {
        (x - 0x1_0000_0000) as i32
    }
}

/// The 32-bit two's-complement pattern of `x`, as unsigned.
pub open spec fn u32_bits(x: i32) -> u32 {
    if x >= 0 {
        x as u32
    } else {
        (x + 0x1_0000_0000) as u32
    }
}

/// The 64-bit two's-complement pattern of `x`, as unsigned.
pub open spec fn u64_bits(x: i64) -> u64 {
    if x >= 0 {
        x as u64
    } else {
        (x + 0x1_0000_0000_0000_0000) as u64
    }
}

/// A 16-bit value sign-extended to 32 bits, reinterpreted as unsigned.
pub open spec fn sign_extend_16(x: u16) -> u32 {
    if x < 0x8000 {
        x as u32
    } else {
        (x + 0xFFFF_0000) as u32
    }
}

/// A 26-bit value (`x < 2^26`) sign-extended to 32 bits: bit 25 is the
/// sign, and on negative values the high six bits are filled with ones.
pub open spec fn sign_extend_26(x: u32) -> u32
    recommends
        x < 0x400_0000,
{
    if x < 0x200_0000 {
        x
    } else {
        (x + 0xFC00_0000) as u32
    }
}

/// Reinterprets a 16-bit pattern as signed.
pub fn i16_from_bits(x: u16) -> (r: i16)
    ensures
        r == i16_bits(x),
{
    if x < 0x8000 {
        x as i16
    } else {
        ((x as i32) - 0x10000) as i16
    }
}

/// Reinterprets a signed 16-bit value as its bit pattern.
pub fn u16_from_i16(x: i16) -> (r: u16)
    ensures
        r == u16_bits(x),
{
    if x >= 0 {
        x as u16
    } else {
        ((x as i32) + 0x10000) as u16
    }
}

/// Reinterprets a 32-bit pattern as signed.
pub fn i32_from_bits(x: u32) -> (r: i32)
    ensures
        r == i32_bits(x),
{
    if x < 0x8000_0000 {
        x as i32
    } else {
        ((x as i64) - 0x1_0000_0000) as i32
    }
}

/// Reinterprets a signed 32-bit value as its bit pattern.
pub fn u32_from_i32(x: i32) -> (r: u32)
    ensures
        r == u32_bits(x),
{
    if x >= 0 {
        x as u32
    } else {
        ((x as i64) + 0x1_0000_0000) as u32
    }
}

/// Sign-extends a 16-bit pattern to 32 bits.
pub fn extend_16(x: u16) -> (r: u32)
    ensures
        r == sign_extend_16(x),
{
    if x < 0x8000 {
        x as u32
    } else {
        (x as u32) + 0xFFFF_0000
    }
}

/// The two reinterpretations invert one another, and sign extension
/// preserves the signed value.
pub proof fn lemma_bits_roundtrip()
    ensures
        forall|x: u16| u16_bits(#[trigger] i16_bits(x)) == x,
        forall|x: i16| i16_bits(#[trigger] u16_bits(x)) == x,
        forall|x: u32| u32_bits(#[trigger] i32_bits(x)) == x,
        forall|x: i32| i32_bits(#[trigger] u32_bits(x)) == x,
        forall|x: u16| #[trigger] sign_extend_16(x) == u32_bits(i16_bits(x) as i32),
{
}

} // verus!
