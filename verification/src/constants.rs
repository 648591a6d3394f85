//! Bit-layout constants of the instruction set: field widths, field
//! offsets and field masks for the three instruction formats, and the
//! sizes of the machine's data units.
//!
//! Instruction formats (bit ranges, MSB..LSB over 32 bits):
//!
//! | Format | 31..26 | 25..21 | 20..16 | 15..11 | 10..6  | 5..0  |
//! |--------|--------|--------|--------|--------|--------|-------|
//! | R      | opcode | Rd     | Rs1    | Rs2    | unused | funct |
//! | I      | opcode | Rd     | Rs1    | immediate (16 bits)    |||
//! | J      | opcode | address (26 bits)                     ||||

use vstd::prelude::*;

verus! {

pub const BYTE_BYTES: u32 = 1;
pub const BYTE_WIDTH: u32 = 8;

pub const HALF_BYTES: u32 = 2;
pub const HALF_WIDTH: u32 = HALF_BYTES * BYTE_WIDTH;

pub const WORD_BYTES: u32 = 4;
pub const WORD_WIDTH: u32 = WORD_BYTES * BYTE_WIDTH;

pub const IMMEDIATE_BYTES: u32 = 2;
pub const IMMEDIATE_WIDTH: u32 = IMMEDIATE_BYTES * BYTE_WIDTH;

pub const OPCODE_WIDTH: u32 = 6;
pub const REG_ID_WIDTH: u32 = 5;
pub const FUNCT_WIDTH: u32 = 6;
pub const ADDRESS_WIDTH: u32 = 26;

pub const OPCODE_OFFSET: u32 = 26;
pub const RD_OFFSET: u32 = 21;
pub const RS1_OFFSET: u32 = 16;
pub const RS2_OFFSET: u32 = 11;
pub const FUNCT_OFFSET: u32 = 0;
pub const IMMEDIATE_OFFSET: u32 = 0;
pub const ADDRESS_OFFSET: u32 = 0;

pub const OPCODE_MASK: u32 = 0b1111_1100_0000_0000_0000_0000_0000_0000;
pub const RD_MASK: u32 = 0b0000_0011_1110_0000_0000_0000_0000_0000;
pub const RS1_MASK: u32 = 0b0000_0000_0001_1111_0000_0000_0000_0000;
pub const RS2_MASK: u32 = 0b0000_0000_0000_0000_1111_1000_0000_0000;
pub const FUNCT_MASK: u32 = 0b0000_0000_0000_0000_0000_0000_0011_1111;
pub const IMMEDIATE_MASK: u32 = 0b0000_0000_0000_0000_1111_1111_1111_1111;
pub const ADDRESS_MASK: u32 = 0b0000_0011_1111_1111_1111_1111_1111_1111;
pub const ADDRESS_SIGN_MASK: u32 = 0b0000_0010_0000_0000_0000_0000_0000_0000;
pub const ADDRESS_EXTENSION: u32 = 0b1111_1100_0000_0000_0000_0000_0000_0000;

/// The bits of the R format covered by none of its named fields.
pub const R_FORMAT_UNUSED_MASK: u32 = 0b0000_0000_0000_0000_0000_0111_1100_0000;
pub const R_FORMAT_UNUSED_WIDTH: u32 = 5;

pub const REGISTER_COUNT: usize = 32;

pub const LOW_BITS_MASK: u32 = 0x0000_FFFF;
pub const HIGH_BITS_MASK: u32 = 0xFFFF_0000;

/// The number of ones in the binary representation of `x`.
pub open spec fn count_ones(x: u32) -> nat
    decreases x,
{
    if x == 0 {
        0
    } else {
        ((x % 2) + count_ones(x / 2)) as nat
    }
}

/// Every field mask has exactly as many bits set as the width of the
/// field it selects.
#[verifier::rlimit(100)]
#[verifier::spinoff_prover]
pub proof fn lemma_mask_widths()
    ensures
        count_ones(OPCODE_MASK) == OPCODE_WIDTH,
        count_ones(RD_MASK) == REG_ID_WIDTH,
        count_ones(RS1_MASK) == REG_ID_WIDTH,
        count_ones(RS2_MASK) == REG_ID_WIDTH,
        count_ones(FUNCT_MASK) == FUNCT_WIDTH,
        count_ones(IMMEDIATE_MASK) == IMMEDIATE_WIDTH,
        count_ones(ADDRESS_MASK) == ADDRESS_WIDTH,
        count_ones(ADDRESS_SIGN_MASK) == 1,
        count_ones(R_FORMAT_UNUSED_MASK) == R_FORMAT_UNUSED_WIDTH,
{
    reveal_with_fuel(count_ones, 33);
}

/// The field widths of each instruction format sum to the word width.
pub proof fn lemma_format_widths_add_up()
    ensures
        OPCODE_WIDTH + REG_ID_WIDTH * 3 + FUNCT_WIDTH + R_FORMAT_UNUSED_WIDTH == 32,
        OPCODE_WIDTH + REG_ID_WIDTH * 2 + IMMEDIATE_WIDTH == 32,
        OPCODE_WIDTH + ADDRESS_WIDTH == 32,
{
}

/// The field masks of each instruction format are pairwise disjoint and
/// together cover the full 32-bit word, so XOR-ing them yields
/// `0xFFFF_FFFF`.
pub proof fn lemma_masks_cover_word()
    ensures
        OPCODE_MASK ^ RD_MASK ^ RS1_MASK ^ RS2_MASK ^ FUNCT_MASK ^ R_FORMAT_UNUSED_MASK
            == 0xFFFF_FFFFu32,
        OPCODE_MASK ^ RD_MASK ^ RS1_MASK ^ IMMEDIATE_MASK == 0xFFFF_FFFFu32,
        OPCODE_MASK ^ ADDRESS_MASK == 0xFFFF_FFFFu32,
        OPCODE_MASK & RD_MASK == 0,
        OPCODE_MASK & RS1_MASK == 0,
        OPCODE_MASK & RS2_MASK == 0,
        OPCODE_MASK & FUNCT_MASK == 0,
        OPCODE_MASK & IMMEDIATE_MASK == 0,
        OPCODE_MASK & ADDRESS_MASK == 0,
        RD_MASK & RS1_MASK == 0,
        RD_MASK & RS2_MASK == 0,
        RD_MASK & FUNCT_MASK == 0,
        RD_MASK & IMMEDIATE_MASK == 0,
        RS1_MASK & RS2_MASK == 0,
        RS1_MASK & FUNCT_MASK == 0,
        RS1_MASK & IMMEDIATE_MASK == 0,
        RS2_MASK & FUNCT_MASK == 0,
        R_FORMAT_UNUSED_MASK & (OPCODE_MASK | RD_MASK | RS1_MASK | RS2_MASK | FUNCT_MASK) == 0,
{
    assert(OPCODE_MASK ^ RD_MASK ^ RS1_MASK ^ RS2_MASK ^ FUNCT_MASK ^ R_FORMAT_UNUSED_MASK
        == 0xFFFF_FFFFu32) by (bit_vector);
    assert(OPCODE_MASK ^ RD_MASK ^ RS1_MASK ^ IMMEDIATE_MASK == 0xFFFF_FFFFu32) by (bit_vector);
    assert(OPCODE_MASK ^ ADDRESS_MASK == 0xFFFF_FFFFu32) by (bit_vector);
    assert(OPCODE_MASK & RD_MASK == 0 && OPCODE_MASK & RS1_MASK == 0 && OPCODE_MASK & RS2_MASK == 0
        && OPCODE_MASK & FUNCT_MASK == 0 && OPCODE_MASK & IMMEDIATE_MASK == 0
        && OPCODE_MASK & ADDRESS_MASK == 0 && RD_MASK & RS1_MASK == 0 && RD_MASK & RS2_MASK == 0
        && RD_MASK & FUNCT_MASK == 0 && RD_MASK & IMMEDIATE_MASK == 0 && RS1_MASK & RS2_MASK == 0
        && RS1_MASK & FUNCT_MASK == 0 && RS1_MASK & IMMEDIATE_MASK == 0
        && RS2_MASK & FUNCT_MASK == 0) by (bit_vector);
    assert(R_FORMAT_UNUSED_MASK & (OPCODE_MASK | RD_MASK | RS1_MASK | RS2_MASK | FUNCT_MASK)
        == 0) by (bit_vector);
}

/// The sign bit of the J-format address field sits just below the
/// extension bits, and the extension exactly complements the address
/// field.
pub proof fn lemma_address_sign_mask_and_extension()
    ensures
        ADDRESS_MASK ^ ADDRESS_EXTENSION == 0xFFFF_FFFFu32,
        ADDRESS_SIGN_MASK & ADDRESS_EXTENSION == 0,
        count_ones(ADDRESS_SIGN_MASK) == 1,
{
    reveal_with_fuel(count_ones, 33);
    assert(ADDRESS_MASK ^ ADDRESS_EXTENSION == 0xFFFF_FFFFu32) by (bit_vector);
    assert(ADDRESS_SIGN_MASK & ADDRESS_EXTENSION == 0) by (bit_vector);
}

} // verus!
