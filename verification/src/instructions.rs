//! The instruction set: opcodes, ALU and floating-point function codes,
//! register names, and the encoders that pack them into 32-bit words.
//!
//! Instruction formats (bit ranges, MSB..LSB over 32 bits):
//!
//! | Format   | Bits 31-26 | Bits 25-21 | Bits 20-16 | Bits 15-11 | Bits 10-6 | Bits 5-0 |
//! |----------|------------|------------|------------|------------|-----------|----------|
//! | R-Format | opcode     | Rd         | Rs1        | Rs2        | unused    | funct    |
//! | I-Format | opcode     | Rd         | Rs1        | immediate (16 bits)             |||
//! | J-Format | opcode     | address (26 bits)                                       ||||

use vstd::prelude::*;

use crate::constants::{
    ADDRESS_MASK, ADDRESS_OFFSET, FUNCT_MASK, FUNCT_OFFSET, IMMEDIATE_MASK, IMMEDIATE_OFFSET,
    OPCODE_MASK, OPCODE_OFFSET, RD_MASK, RD_OFFSET, RS1_MASK, RS1_OFFSET, RS2_MASK, RS2_OFFSET,
};
use crate::{Address, Immediate, Word};

verus! {

/// Processor opcodes, in encoding order: a variant's position in this
/// list is its 6-bit value in the opcode field.
#[derive(Clone, Copy, PartialEq, Eq, Structural, Debug)]
pub enum Opcode {
    /// No-op. Format `I`. Has no effect.
    NOP,
    /// Arithmetic logic unit. Format `R`. Performs the integer operation
    /// selected by `funct` (see [`AluFunct`]).
    ALU,
    /// Halt. Format `I`. Stops execution of the current program.
    HALT,
    /// Reserved system-call opcode; currently does nothing.
    CALL,
    /// Copy. Format `I`. `Rd = Rs1`.
    COPY,
    /// Load immediate. Format `I`. `Rd = immediate`, sign-extended.
    LI,
    /// Load high immediate. Format `I`. `Rd = immediate << 16`.
    LHI,
    /// Set low bits. Format `I`. Sets only the low 16 bits of `Rd`.
    SLO,
    /// Set high bits. Format `I`. Sets only the high 16 bits of `Rd`.
    SHI,
    /// Load byte. Format `I`. `Rd = MEM[Rs1 + immediate]`, one byte.
    LB,
    /// Load half. Format `I`. `Rd = MEM[Rs1 + immediate]`, two bytes.
    LH,
    /// Load word. Format `I`. `Rd = MEM[Rs1 + immediate]`, four bytes.
    LW,
    /// Store byte. Format `I`. Writes the low byte of `Rd` to memory.
    SB,
    /// Store half. Format `I`. Writes the low two bytes of `Rd` to memory.
    SH,
    /// Store word. Format `I`. Writes `Rd` to memory.
    SW,
    /// Add immediate. Format `I`. `Rd = Rs1 + immediate`.
    ADDI,
    /// Subtract immediate. Format `I`. `Rd = Rs1 - immediate`.
    SUBI,
    /// Multiply immediate. Format `I`. `Rd = Rs1 * immediate`; `RM`
    /// receives the high 32 bits of the product.
    MULI,
    /// Divide immediate. Format `I`. `Rd = Rs1 / immediate`; `RM`
    /// receives the remainder.
    DIVI,
    /// And immediate. Format `I`. `Rd = Rs1 & immediate`.
    ANDI,
    /// Or immediate. Format `I`. `Rd = Rs1 | immediate`.
    ORI,
    /// Exclusive-or immediate. Format `I`. `Rd = Rs1 ^ immediate`.
    XORI,
    /// Flip. Format `I`. `Rd = !Rs1`.
    FLIP,
    /// Shift left logical immediate. Format `I`.
    SLLI,
    /// Shift right logical immediate (inserting zeros). Format `I`.
    SRLI,
    /// Shift right arithmetic immediate (inserting the sign bit). Format `I`.
    SRAI,
    /// Set if equal immediate. Format `I`.
    SEQI,
    /// Set if not equal immediate. Format `I`.
    SNEI,
    /// Set if less than immediate. Format `I`.
    SLTI,
    /// Set if greater than immediate. Format `I`.
    SGTI,
    /// Set if less or equal immediate. Format `I`.
    SLEI,
    /// Set if greater or equal immediate. Format `I`.
    SGEI,
    /// Set if less than unsigned immediate. Format `I`.
    SLTUI,
    /// Set if greater than unsigned immediate. Format `I`.
    SGTUI,
    /// Set if less or equal unsigned immediate. Format `I`.
    SLEUI,
    /// Set if greater or equal unsigned immediate. Format `I`.
    SGEUI,
    /// Branch if zero. Format `I`. If `Rs1 == 0`, adds `immediate` to the
    /// program counter.
    BEZ,
    /// Branch if not zero. Format `I`. If `Rs1 != 0`, adds `immediate` to
    /// the program counter.
    BNZ,
    /// Jump. Format `J`. Adds `address` to the program counter.
    JMP,
    /// Jump and link. Format `J`. Adds `address` to the program counter
    /// and sets `RA` to the next instruction's address.
    JL,
    /// Jump register. Format `I`. Sets the program counter to `Rs1`.
    JR,
    /// Jump and link register. Format `I`. Sets the program counter to
    /// `Rs1` and sets `RA` to the next instruction's address.
    JLR,
    /// Int to float. Format `I`. `Rd = Rs1` converted to floating point.
    ITOF,
    /// Float to int. Format `I`. `Rd = Rs1` converted to integer.
    FTOI,
    /// Floating point operation. Format `R`. Performs the operation
    /// selected by `funct` (see [`FlopFunct`]).
    FLOP,
}

/// Function codes of the [`Opcode::ALU`] instruction, in encoding order.
#[derive(Clone, Copy, PartialEq, Eq, Structural, Debug)]
pub enum AluFunct {
    /// `Rd = Rs1 + Rs2`.
    ADD,
    /// `Rd = Rs1 - Rs2`.
    SUB,
    /// `Rd = Rs1 * Rs2`; `RM` receives the high 32 bits of the product.
    MUL,
    /// `Rd = Rs1 / Rs2`; `RM` receives the remainder.
    DIV,
    /// `Rd = Rs1 & Rs2`.
    AND,
    /// `Rd = Rs1 | Rs2`.
    OR,
    /// `Rd = Rs1 ^ Rs2`.
    XOR,
    /// `Rd = Rs1 << Rs2`.
    SLL,
    /// `Rd = Rs1 >> Rs2`, inserting zeros.
    SRL,
    /// `Rd = Rs1 >> Rs2`, inserting the sign bit.
    SRA,
    /// `Rd = (Rs1 == Rs2) ? 1 : 0`.
    SEQ,
    /// `Rd = (Rs1 != Rs2) ? 1 : 0`.
    SNE,
    /// `Rd = (Rs1 < Rs2) ? 1 : 0`, signed.
    SLT,
    /// `Rd = (Rs1 > Rs2) ? 1 : 0`, signed.
    SGT,
    /// `Rd = (Rs1 <= Rs2) ? 1 : 0`, signed.
    SLE,
    /// `Rd = (Rs1 >= Rs2) ? 1 : 0`, signed.
    SGE,
    /// `Rd = (Rs1 < Rs2) ? 1 : 0`, unsigned.
    SLTU,
    /// `Rd = (Rs1 > Rs2) ? 1 : 0`, unsigned.
    SGTU,
    /// `Rd = (Rs1 <= Rs2) ? 1 : 0`, unsigned.
    SLEU,
    /// `Rd = (Rs1 >= Rs2) ? 1 : 0`, unsigned.
    SGEU,
}

/// Function codes of the [`Opcode::FLOP`] instruction, in encoding order.
#[derive(Clone, Copy, PartialEq, Eq, Structural, Debug)]
pub enum FlopFunct {
    /// `Rd = Rs1 + Rs2` using IEEE 754 floats.
    FADD,
    /// `Rd = Rs1 - Rs2` using IEEE 754 floats.
    FSUB,
    /// `Rd = Rs1 * Rs2` using IEEE 754 floats.
    FMUL,
    /// `Rd = Rs1 / Rs2` using IEEE 754 floats.
    FDIV,
}

/// The registers, in encoding order: a variant's position in this list
/// is its 5-bit value in a register field, and its index in the
/// register file.
#[derive(Clone, Copy, PartialEq, Eq, Structural, Debug)]
pub enum RegisterId {
    /// Always zero (read only).
    ZERO,
    /// Value 0.
    V0,
    /// Value 1.
    V1,
    /// Argument 0.
    A0,
    /// Argument 1.
    A1,
    /// Argument 2.
    A2,
    /// Argument 3.
    A3,
    /// Argument 4.
    A4,
    /// Temporary 0.
    T0,
    /// Temporary 1.
    T1,
    /// Temporary 2.
    T2,
    /// Temporary 3.
    T3,
    /// Temporary 4.
    T4,
    /// Temporary 5.
    T5,
    /// Temporary 6.
    T6,
    /// Temporary 7.
    T7,
    /// Temporary 8.
    T8,
    /// Temporary 9.
    T9,
    /// Saved 0.
    S0,
    /// Saved 1.
    S1,
    /// Saved 2.
    S2,
    /// Saved 3.
    S3,
    /// Saved 4.
    S4,
    /// Saved 5.
    S5,
    /// Saved 6.
    S6,
    /// Saved 7.
    S7,
    /// Saved 8.
    S8,
    /// Saved 9.
    S9,
    /// Stack pointer.
    SP,
    /// Frame pointer.
    FP,
    /// Remainder, or the high bits of a multiplication product.
    RM,
    /// Return address of the last jump-and-link.
    RA,
}

/// The 6-bit encoding of an opcode.
pub open spec fn opcode_value(oc: Opcode) -> u32 {
    match oc {
        Opcode::NOP => 0,
        Opcode::ALU => 1,
        Opcode::HALT => 2,
        Opcode::CALL => 3,
        Opcode::COPY => 4,
        Opcode::LI => 5,
        Opcode::LHI => 6,
        Opcode::SLO => 7,
        Opcode::SHI => 8,
        Opcode::LB => 9,
        Opcode::LH => 10,
        Opcode::LW => 11,
        Opcode::SB => 12,
        Opcode::SH => 13,
        Opcode::SW => 14,
        Opcode::ADDI => 15,
        Opcode::SUBI => 16,
        Opcode::MULI => 17,
        Opcode::DIVI => 18,
        Opcode::ANDI => 19,
        Opcode::ORI => 20,
        Opcode::XORI => 21,
        Opcode::FLIP => 22,
        Opcode::SLLI => 23,
        Opcode::SRLI => 24,
        Opcode::SRAI => 25,
        Opcode::SEQI => 26,
        Opcode::SNEI => 27,
        Opcode::SLTI => 28,
        Opcode::SGTI => 29,
        Opcode::SLEI => 30,
        Opcode::SGEI => 31,
        Opcode::SLTUI => 32,
        Opcode::SGTUI => 33,
        Opcode::SLEUI => 34,
        Opcode::SGEUI => 35,
        Opcode::BEZ => 36,
        Opcode::BNZ => 37,
        Opcode::JMP => 38,
        Opcode::JL => 39,
        Opcode::JR => 40,
        Opcode::JLR => 41,
        Opcode::ITOF => 42,
        Opcode::FTOI => 43,
        Opcode::FLOP => 44,
    }
}

/// The number of opcodes; encodings run from 0 to one below this.
pub const OPCODE_VALUE_COUNT: u32 = 45;

/// The 6-bit encoding of an ALU function code.
pub open spec fn alu_funct_value(f: AluFunct) -> u32 {
    match f {
        AluFunct::ADD => 0,
        AluFunct::SUB => 1,
        AluFunct::MUL => 2,
        AluFunct::DIV => 3,
        AluFunct::AND => 4,
        AluFunct::OR => 5,
        AluFunct::XOR => 6,
        AluFunct::SLL => 7,
        AluFunct::SRL => 8,
        AluFunct::SRA => 9,
        AluFunct::SEQ => 10,
        AluFunct::SNE => 11,
        AluFunct::SLT => 12,
        AluFunct::SGT => 13,
        AluFunct::SLE => 14,
        AluFunct::SGE => 15,
        AluFunct::SLTU => 16,
        AluFunct::SGTU => 17,
        AluFunct::SLEU => 18,
        AluFunct::SGEU => 19,
    }
}

/// The number of ALU function codes.
pub const ALU_FUNCT_VALUE_COUNT: u32 = 20;

/// The 6-bit encoding of a floating-point function code.
pub open spec fn flop_funct_value(f: FlopFunct) -> u32 {
    match f {
        FlopFunct::FADD => 0,
        FlopFunct::FSUB => 1,
        FlopFunct::FMUL => 2,
        FlopFunct::FDIV => 3,
    }
}

/// The number of floating-point function codes.
pub const FLOP_FUNCT_VALUE_COUNT: u32 = 4;

/// The 5-bit encoding of a register, which doubles as its index in the
/// register file.
pub open spec fn register_value(id: RegisterId) -> u32 {
    match id {
        RegisterId::ZERO => 0,
        RegisterId::V0 => 1,
        RegisterId::V1 => 2,
        RegisterId::A0 => 3,
        RegisterId::A1 => 4,
        RegisterId::A2 => 5,
        RegisterId::A3 => 6,
        RegisterId::A4 => 7,
        RegisterId::T0 => 8,
        RegisterId::T1 => 9,
        RegisterId::T2 => 10,
        RegisterId::T3 => 11,
        RegisterId::T4 => 12,
        RegisterId::T5 => 13,
        RegisterId::T6 => 14,
        RegisterId::T7 => 15,
        RegisterId::T8 => 16,
        RegisterId::T9 => 17,
        RegisterId::S0 => 18,
        RegisterId::S1 => 19,
        RegisterId::S2 => 20,
        RegisterId::S3 => 21,
        RegisterId::S4 => 22,
        RegisterId::S5 => 23,
        RegisterId::S6 => 24,
        RegisterId::S7 => 25,
        RegisterId::S8 => 26,
        RegisterId::S9 => 27,
        RegisterId::SP => 28,
        RegisterId::FP => 29,
        RegisterId::RM => 30,
        RegisterId::RA => 31,
    }
}

/// The opcode with the given encoding, if there is one.
pub open spec fn opcode_from_value(v: u32) -> Option<Opcode> {
    if v == 0 {
        Some(Opcode::NOP)
    } else if v == 1 {
        Some(Opcode::ALU)
    } else if v == 2 {
        Some(Opcode::HALT)
    } else if v == 3 {
        Some(Opcode::CALL)
    } else if v == 4 {
        Some(Opcode::COPY)
    } else if v == 5 {
        Some(Opcode::LI)
    } else if v == 6 {
        Some(Opcode::LHI)
    } else if v == 7 {
        Some(Opcode::SLO)
    } else if v == 8 {
        Some(Opcode::SHI)
    } else if v == 9 {
        Some(Opcode::LB)
    } else if v == 10 {
        Some(Opcode::LH)
    } else if v == 11 {
        Some(Opcode::LW)
    } else if v == 12 {
        Some(Opcode::SB)
    } else if v == 13 {
        Some(Opcode::SH)
    } else if v == 14 {
        Some(Opcode::SW)
    } else if v == 15 {
        Some(Opcode::ADDI)
    } else if v == 16 {
        Some(Opcode::SUBI)
    } else if v == 17 {
        Some(Opcode::MULI)
    } else if v == 18 {
        Some(Opcode::DIVI)
    } else if v == 19 {
        Some(Opcode::ANDI)
    } else if v == 20 {
        Some(Opcode::ORI)
    } else if v == 21 {
        Some(Opcode::XORI)
    } else if v == 22 {
        Some(Opcode::FLIP)
    } else if v == 23 {
        Some(Opcode::SLLI)
    } else if v == 24 {
        Some(Opcode::SRLI)
    } else if v == 25 {
        Some(Opcode::SRAI)
    } else if v == 26 {
        Some(Opcode::SEQI)
    } else if v == 27 {
        Some(Opcode::SNEI)
    } else if v == 28 {
        Some(Opcode::SLTI)
    } else if v == 29 {
        Some(Opcode::SGTI)
    } else if v == 30 {
        Some(Opcode::SLEI)
    } else if v == 31 {
        Some(Opcode::SGEI)
    } else if v == 32 {
        Some(Opcode::SLTUI)
    } else if v == 33 {
        Some(Opcode::SGTUI)
    } else if v == 34 {
        Some(Opcode::SLEUI)
    } else if v == 35 {
        Some(Opcode::SGEUI)
    } else if v == 36 {
        Some(Opcode::BEZ)
    } else if v == 37 {
        Some(Opcode::BNZ)
    } else if v == 38 {
        Some(Opcode::JMP)
    } else if v == 39 {
        Some(Opcode::JL)
    } else if v == 40 {
        Some(Opcode::JR)
    } else if v == 41 {
        Some(Opcode::JLR)
    } else if v == 42 {
        Some(Opcode::ITOF)
    } else if v == 43 {
        Some(Opcode::FTOI)
    } else if v == 44 {
        Some(Opcode::FLOP)
    } else {
        None
    }
}

/// The ALU function code with the given encoding, if there is one.
pub open spec fn alu_funct_from_value(v: u32) -> Option<AluFunct> {
    if v == 0 {
        Some(AluFunct::ADD)
    } else if v == 1 {
        Some(AluFunct::SUB)
    } else if v == 2 {
        Some(AluFunct::MUL)
    } else if v == 3 {
        Some(AluFunct::DIV)
    } else if v == 4 {
        Some(AluFunct::AND)
    } else if v == 5 {
        Some(AluFunct::OR)
    } else if v == 6 {
        Some(AluFunct::XOR)
    } else if v == 7 {
        Some(AluFunct::SLL)
    } else if v == 8 {
        Some(AluFunct::SRL)
    } else if v == 9 {
        Some(AluFunct::SRA)
    } else if v == 10 {
        Some(AluFunct::SEQ)
    } else if v == 11 {
        Some(AluFunct::SNE)
    } else if v == 12 {
        Some(AluFunct::SLT)
    } else if v == 13 {
        Some(AluFunct::SGT)
    } else if v == 14 {
        Some(AluFunct::SLE)
    } else if v == 15 {
        Some(AluFunct::SGE)
    } else if v == 16 {
        Some(AluFunct::SLTU)
    } else if v == 17 {
        Some(AluFunct::SGTU)
    } else if v == 18 {
        Some(AluFunct::SLEU)
    } else if v == 19 {
        Some(AluFunct::SGEU)
    } else {
        None
    }
}

/// The floating-point function code with the given encoding, if there is one.
pub open spec fn flop_funct_from_value(v: u32) -> Option<FlopFunct> {
    if v == 0 {
        Some(FlopFunct::FADD)
    } else if v == 1 {
        Some(FlopFunct::FSUB)
    } else if v == 2 {
        Some(FlopFunct::FMUL)
    } else if v == 3 {
        Some(FlopFunct::FDIV)
    } else {
        None
    }
}

/// The register with the given encoding, if there is one.
pub open spec fn register_from_value(v: u32) -> Option<RegisterId> {
    if v < 32 {
        Some(register_of_value(v))
    } else {
        None
    }
}

/// The register whose encoding is `v`, for `v < 32`.
pub open spec fn register_of_value(v: u32) -> RegisterId
    recommends
        v < 32,
{
    if v == 0 {
        RegisterId::ZERO
    } else if v == 1 {
        RegisterId::V0
    } else if v == 2 {
        RegisterId::V1
    } else if v == 3 {
        RegisterId::A0
    } else if v == 4 {
        RegisterId::A1
    } else if v == 5 {
        RegisterId::A2
    } else if v == 6 {
        RegisterId::A3
    } else if v == 7 {
        RegisterId::A4
    } else if v == 8 {
        RegisterId::T0
    } else if v == 9 {
        RegisterId::T1
    } else if v == 10 {
        RegisterId::T2
    } else if v == 11 {
        RegisterId::T3
    } else if v == 12 {
        RegisterId::T4
    } else if v == 13 {
        RegisterId::T5
    } else if v == 14 {
        RegisterId::T6
    } else if v == 15 {
        RegisterId::T7
    } else if v == 16 {
        RegisterId::T8
    } else if v == 17 {
        RegisterId::T9
    } else if v == 18 {
        RegisterId::S0
    } else if v == 19 {
        RegisterId::S1
    } else if v == 20 {
        RegisterId::S2
    } else if v == 21 {
        RegisterId::S3
    } else if v == 22 {
        RegisterId::S4
    } else if v == 23 {
        RegisterId::S5
    } else if v == 24 {
        RegisterId::S6
    } else if v == 25 {
        RegisterId::S7
    } else if v == 26 {
        RegisterId::S8
    } else if v == 27 {
        RegisterId::S9
    } else if v == 28 {
        RegisterId::SP
    } else if v == 29 {
        RegisterId::FP
    } else if v == 30 {
        RegisterId::RM
    } else {
        RegisterId::RA
    }
}

/// Every opcode encoding is below [`OPCODE_VALUE_COUNT`], every ALU
/// function code below [`ALU_FUNCT_VALUE_COUNT`], every floating-point
/// function code below [`FLOP_FUNCT_VALUE_COUNT`], and every register
/// encoding below the register count.
pub proof fn lemma_value_bounds()
    ensures
        forall|oc: Opcode| #[trigger] opcode_value(oc) < OPCODE_VALUE_COUNT,
        forall|f: AluFunct| #[trigger] alu_funct_value(f) < ALU_FUNCT_VALUE_COUNT,
        forall|f: FlopFunct| #[trigger] flop_funct_value(f) < FLOP_FUNCT_VALUE_COUNT,
        forall|id: RegisterId| #[trigger] register_value(id) < 32,
{
}

/// The index of a register in the register file: its 5-bit encoding.
pub fn register_index(id: RegisterId) -> (r: usize)
    ensures
        r == register_value(id),
        r < 32,
{
    match id {
        RegisterId::ZERO => 0,
        RegisterId::V0 => 1,
        RegisterId::V1 => 2,
        RegisterId::A0 => 3,
        RegisterId::A1 => 4,
        RegisterId::A2 => 5,
        RegisterId::A3 => 6,
        RegisterId::A4 => 7,
        RegisterId::T0 => 8,
        RegisterId::T1 => 9,
        RegisterId::T2 => 10,
        RegisterId::T3 => 11,
        RegisterId::T4 => 12,
        RegisterId::T5 => 13,
        RegisterId::T6 => 14,
        RegisterId::T7 => 15,
        RegisterId::T8 => 16,
        RegisterId::T9 => 17,
        RegisterId::S0 => 18,
        RegisterId::S1 => 19,
        RegisterId::S2 => 20,
        RegisterId::S3 => 21,
        RegisterId::S4 => 22,
        RegisterId::S5 => 23,
        RegisterId::S6 => 24,
        RegisterId::S7 => 25,
        RegisterId::S8 => 26,
        RegisterId::S9 => 27,
        RegisterId::SP => 28,
        RegisterId::FP => 29,
        RegisterId::RM => 30,
        RegisterId::RA => 31,
    }
}

impl Opcode {
    /// The opcode with the given 6-bit encoding, if there is one.
    pub fn from_u32(v: u32) -> (r: Option<Opcode>)
        ensures
            r == opcode_from_value(v),
            match r {
                Some(oc) => opcode_value(oc) == v,
                None => v >= OPCODE_VALUE_COUNT,
            },
    {
        if v == 0 {
            Some(Opcode::NOP)
        } else if v == 1 {
            Some(Opcode::ALU)
        } else if v == 2 {
            Some(Opcode::HALT)
        } else if v == 3 {
            Some(Opcode::CALL)
        } else if v == 4 {
            Some(Opcode::COPY)
        } else if v == 5 {
            Some(Opcode::LI)
        } else if v == 6 {
            Some(Opcode::LHI)
        } else if v == 7 {
            Some(Opcode::SLO)
        } else if v == 8 {
            Some(Opcode::SHI)
        } else if v == 9 {
            Some(Opcode::LB)
        } else if v == 10 {
            Some(Opcode::LH)
        } else if v == 11 {
            Some(Opcode::LW)
        } else if v == 12 {
            Some(Opcode::SB)
        } else if v == 13 {
            Some(Opcode::SH)
        } else if v == 14 {
            Some(Opcode::SW)
        } else if v == 15 {
            Some(Opcode::ADDI)
        } else if v == 16 {
            Some(Opcode::SUBI)
        } else if v == 17 {
            Some(Opcode::MULI)
        } else if v == 18 {
            Some(Opcode::DIVI)
        } else if v == 19 {
            Some(Opcode::ANDI)
        } else if v == 20 {
            Some(Opcode::ORI)
        } else if v == 21 {
            Some(Opcode::XORI)
        } else if v == 22 {
            Some(Opcode::FLIP)
        } else if v == 23 {
            Some(Opcode::SLLI)
        } else if v == 24 {
            Some(Opcode::SRLI)
        } else if v == 25 {
            Some(Opcode::SRAI)
        } else if v == 26 {
            Some(Opcode::SEQI)
        } else if v == 27 {
            Some(Opcode::SNEI)
        } else if v == 28 {
            Some(Opcode::SLTI)
        } else if v == 29 {
            Some(Opcode::SGTI)
        } else if v == 30 {
            Some(Opcode::SLEI)
        } else if v == 31 {
            Some(Opcode::SGEI)
        } else if v == 32 {
            Some(Opcode::SLTUI)
        } else if v == 33 {
            Some(Opcode::SGTUI)
        } else if v == 34 {
            Some(Opcode::SLEUI)
        } else if v == 35 {
            Some(Opcode::SGEUI)
        } else if v == 36 {
            Some(Opcode::BEZ)
        } else if v == 37 {
            Some(Opcode::BNZ)
        } else if v == 38 {
            Some(Opcode::JMP)
        } else if v == 39 {
            Some(Opcode::JL)
        } else if v == 40 {
            Some(Opcode::JR)
        } else if v == 41 {
            Some(Opcode::JLR)
        } else if v == 42 {
            Some(Opcode::ITOF)
        } else if v == 43 {
            Some(Opcode::FTOI)
        } else if v == 44 {
            Some(Opcode::FLOP)
        } else {
            None
        }
    }
}

impl AluFunct {
    /// The ALU function code with the given 6-bit encoding, if there is
    /// one.
    pub fn from_u32(v: u32) -> (r: Option<AluFunct>)
        ensures
            r == alu_funct_from_value(v),
            match r {
                Some(f) => alu_funct_value(f) == v,
                None => v >= ALU_FUNCT_VALUE_COUNT,
            },
    {
        if v == 0 {
            Some(AluFunct::ADD)
        } else if v == 1 {
            Some(AluFunct::SUB)
        } else if v == 2 {
            Some(AluFunct::MUL)
        } else if v == 3 {
            Some(AluFunct::DIV)
        } else if v == 4 {
            Some(AluFunct::AND)
        } else if v == 5 {
            Some(AluFunct::OR)
        } else if v == 6 {
            Some(AluFunct::XOR)
        } else if v == 7 {
            Some(AluFunct::SLL)
        } else if v == 8 {
            Some(AluFunct::SRL)
        } else if v == 9 {
            Some(AluFunct::SRA)
        } else if v == 10 {
            Some(AluFunct::SEQ)
        } else if v == 11 {
            Some(AluFunct::SNE)
        } else if v == 12 {
            Some(AluFunct::SLT)
        } else if v == 13 {
            Some(AluFunct::SGT)
        } else if v == 14 {
            Some(AluFunct::SLE)
        } else if v == 15 {
            Some(AluFunct::SGE)
        } else if v == 16 {
            Some(AluFunct::SLTU)
        } else if v == 17 {
            Some(AluFunct::SGTU)
        } else if v == 18 {
            Some(AluFunct::SLEU)
        } else if v == 19 {
            Some(AluFunct::SGEU)
        } else {
            None
        }
    }
}

impl FlopFunct {
    /// The floating-point function code with the given 6-bit encoding,
    /// if there is one.
    pub fn from_u32(v: u32) -> (r: Option<FlopFunct>)
        ensures
            r == flop_funct_from_value(v),
            match r {
                Some(f) => flop_funct_value(f) == v,
                None => v >= FLOP_FUNCT_VALUE_COUNT,
            },
    {
        if v == 0 {
            Some(FlopFunct::FADD)
        } else if v == 1 {
            Some(FlopFunct::FSUB)
        } else if v == 2 {
            Some(FlopFunct::FMUL)
        } else if v == 3 {
            Some(FlopFunct::FDIV)
        } else {
            None
        }
    }
}

impl RegisterId {
    /// The register with the given 5-bit encoding, if there is one.
    pub fn from_u32(v: u32) -> (r: Option<RegisterId>)
        ensures
            match r {
                Some(id) => register_value(id) == v,
                None => v >= 32,
            },
    {
        let table: [RegisterId; 32] = [
            RegisterId::ZERO,
            RegisterId::V0,
            RegisterId::V1,
            RegisterId::A0,
            RegisterId::A1,
            RegisterId::A2,
            RegisterId::A3,
            RegisterId::A4,
            RegisterId::T0,
            RegisterId::T1,
            RegisterId::T2,
            RegisterId::T3,
            RegisterId::T4,
            RegisterId::T5,
            RegisterId::T6,
            RegisterId::T7,
            RegisterId::T8,
            RegisterId::T9,
            RegisterId::S0,
            RegisterId::S1,
            RegisterId::S2,
            RegisterId::S3,
            RegisterId::S4,
            RegisterId::S5,
            RegisterId::S6,
            RegisterId::S7,
            RegisterId::S8,
            RegisterId::S9,
            RegisterId::SP,
            RegisterId::FP,
            RegisterId::RM,
            RegisterId::RA,
        ];
        if v < 32 {
            Some(table[v as usize])
        } else {
            None
        }
    }

    /// The register with the given index in the register file, if there
    /// is one.
    pub fn from_usize(v: usize) -> (r: Option<RegisterId>)
        ensures
            match r {
                Some(id) => register_value(id) == v,
                None => v >= 32,
            },
    {
        if v < 32 {
            RegisterId::from_u32(v as u32)
        } else {
            None
        }
    }
}

/// An R-format word assembled from raw field values: each operand is
/// shifted into its position and masked to its field.
pub open spec fn encode_r(op: u32, rd: u32, rs1: u32, rs2: u32, funct: u32) -> u32 {
    ((op << OPCODE_OFFSET) & OPCODE_MASK) | ((rd << RD_OFFSET) & RD_MASK)
        | ((rs1 << RS1_OFFSET) & RS1_MASK) | ((rs2 << RS2_OFFSET) & RS2_MASK)
        | ((funct << FUNCT_OFFSET) & FUNCT_MASK)
}

/// An I-format word assembled from raw field values.
pub open spec fn encode_i(op: u32, rd: u32, rs1: u32, imm: u16) -> u32 {
    ((op << OPCODE_OFFSET) & OPCODE_MASK) | ((rd << RD_OFFSET) & RD_MASK)
        | ((rs1 << RS1_OFFSET) & RS1_MASK) | (((imm as u32) << IMMEDIATE_OFFSET) & IMMEDIATE_MASK)
}

/// A J-format word assembled from raw field values.
pub open spec fn encode_j(op: u32, address: u32) -> u32 {
    ((op << OPCODE_OFFSET) & OPCODE_MASK) | ((address << ADDRESS_OFFSET) & ADDRESS_MASK)
}

/// The 6-bit opcode field of an instruction word.
pub open spec fn instr_opcode(w: u32) -> u32 {
    (w & OPCODE_MASK) >> OPCODE_OFFSET
}

/// The 5-bit Rd field of an instruction word.
pub open spec fn instr_rd(w: u32) -> u32 {
    (w & RD_MASK) >> RD_OFFSET
}

/// The 5-bit Rs1 field of an instruction word.
pub open spec fn instr_rs1(w: u32) -> u32 {
    (w & RS1_MASK) >> RS1_OFFSET
}

/// The 5-bit Rs2 field of an instruction word.
pub open spec fn instr_rs2(w: u32) -> u32 {
    (w & RS2_MASK) >> RS2_OFFSET
}

/// The 6-bit funct field of an instruction word.
pub open spec fn instr_funct(w: u32) -> u32 {
    (w & FUNCT_MASK) >> FUNCT_OFFSET
}

/// The 16-bit immediate field of an instruction word.
pub open spec fn instr_immediate(w: u32) -> u16 {
    ((w & IMMEDIATE_MASK) >> IMMEDIATE_OFFSET) as u16
}

/// The 26-bit address field of an instruction word.
pub open spec fn instr_address(w: u32) -> u32 {
    (w & ADDRESS_MASK) >> ADDRESS_OFFSET
}

/// Decoding an R-format word recovers exactly the field values it was
/// encoded from, as long as each operand fits its field.
pub proof fn lemma_decode_encode_r(op: u32, rd: u32, rs1: u32, rs2: u32, funct: u32)
    requires
        op < 64,
        rd < 32,
        rs1 < 32,
        rs2 < 32,
        funct < 64,
    ensures
        instr_opcode(encode_r(op, rd, rs1, rs2, funct)) == op,
        instr_rd(encode_r(op, rd, rs1, rs2, funct)) == rd,
        instr_rs1(encode_r(op, rd, rs1, rs2, funct)) == rs1,
        instr_rs2(encode_r(op, rd, rs1, rs2, funct)) == rs2,
        instr_funct(encode_r(op, rd, rs1, rs2, funct)) == funct,
{
    let w = encode_r(op, rd, rs1, rs2, funct);
    assert(op < 64 && rd < 32 && rs1 < 32 && rs2 < 32 && funct < 64 ==> {
        let v = ((op << OPCODE_OFFSET) & OPCODE_MASK) | ((rd << RD_OFFSET) & RD_MASK)
            | ((rs1 << RS1_OFFSET) & RS1_MASK) | ((rs2 << RS2_OFFSET) & RS2_MASK)
            | ((funct << FUNCT_OFFSET) & FUNCT_MASK);
        (v & OPCODE_MASK) >> OPCODE_OFFSET == op && (v & RD_MASK) >> RD_OFFSET == rd
            && (v & RS1_MASK) >> RS1_OFFSET == rs1 && (v & RS2_MASK) >> RS2_OFFSET == rs2
            && (v & FUNCT_MASK) >> FUNCT_OFFSET == funct
    }) by (bit_vector);
}

/// Decoding an I-format word recovers exactly the field values it was
/// encoded from, as long as each operand fits its field; the immediate
/// may be any 16-bit value.
pub proof fn lemma_decode_encode_i(op: u32, rd: u32, rs1: u32, imm: u16)
    requires
        op < 64,
        rd < 32,
        rs1 < 32,
    ensures
        instr_opcode(encode_i(op, rd, rs1, imm)) == op,
        instr_rd(encode_i(op, rd, rs1, imm)) == rd,
        instr_rs1(encode_i(op, rd, rs1, imm)) == rs1,
        instr_immediate(encode_i(op, rd, rs1, imm)) == imm,
{
    assert(op < 64 && rd < 32 && rs1 < 32 ==> {
        let v = ((op << OPCODE_OFFSET) & OPCODE_MASK) | ((rd << RD_OFFSET) & RD_MASK)
            | ((rs1 << RS1_OFFSET) & RS1_MASK)
            | (((imm as u32) << IMMEDIATE_OFFSET) & IMMEDIATE_MASK);
        (v & OPCODE_MASK) >> OPCODE_OFFSET == op && (v & RD_MASK) >> RD_OFFSET == rd
            && (v & RS1_MASK) >> RS1_OFFSET == rs1
            && ((v & IMMEDIATE_MASK) >> IMMEDIATE_OFFSET) as u16 == imm
    }) by (bit_vector);
}

/// Decoding a J-format word recovers exactly the opcode it was encoded
/// from, and the low 26 bits of the address operand.
pub proof fn lemma_decode_encode_j(op: u32, address: u32)
    requires
        op < 64,
    ensures
        instr_opcode(encode_j(op, address)) == op,
        instr_address(encode_j(op, address)) == address & ADDRESS_MASK,
{
    assert(op < 64 ==> {
        let v = ((op << OPCODE_OFFSET) & OPCODE_MASK) | ((address << ADDRESS_OFFSET)
            & ADDRESS_MASK);
        (v & OPCODE_MASK) >> OPCODE_OFFSET == op && (v & ADDRESS_MASK) >> ADDRESS_OFFSET == address
            & ADDRESS_MASK
    }) by (bit_vector);
}


/// Decoding inverts encoding at the level of the enumerations: the
/// value of an opcode, function code or register decodes back to the
/// very same variant.
pub proof fn lemma_from_value_roundtrip()
    ensures
        forall|oc: Opcode| opcode_from_value(#[trigger] opcode_value(oc)) == Some(oc),
        forall|f: AluFunct| alu_funct_from_value(#[trigger] alu_funct_value(f)) == Some(f),
        forall|f: FlopFunct| flop_funct_from_value(#[trigger] flop_funct_value(f)) == Some(f),
        forall|id: RegisterId| register_from_value(#[trigger] register_value(id)) == Some(id),
{
}

/// Decoding a produced instruction yields the operands the assembler
/// emitted: the opcode and function fields decode back to their
/// variants, the register fields to their registers, and an I-format
/// immediate to its 16-bit pattern.
pub proof fn lemma_decode_produced_instructions(
    funct: AluFunct,
    oc: Opcode,
    rd: RegisterId,
    rs1: RegisterId,
    rs2: RegisterId,
    imm: u16,
)
    ensures
        ({
            let w = encode_r(
                opcode_value(Opcode::ALU),
                register_value(rd),
                register_value(rs1),
                register_value(rs2),
                alu_funct_value(funct),
            );
            &&& opcode_from_value(instr_opcode(w)) == Some(Opcode::ALU)
            &&& alu_funct_from_value(instr_funct(w)) == Some(funct)
            &&& register_from_value(instr_rd(w)) == Some(rd)
            &&& register_from_value(instr_rs1(w)) == Some(rs1)
            &&& register_from_value(instr_rs2(w)) == Some(rs2)
        }),
        ({
            let w = encode_i(opcode_value(oc), register_value(rd), register_value(rs1), imm);
            &&& opcode_from_value(instr_opcode(w)) == Some(oc)
            &&& register_from_value(instr_rd(w)) == Some(rd)
            &&& register_from_value(instr_rs1(w)) == Some(rs1)
            &&& instr_immediate(w) == imm
        }),
{
    lemma_value_bounds();
    lemma_from_value_roundtrip();
    lemma_decode_encode_r(
        opcode_value(Opcode::ALU),
        register_value(rd),
        register_value(rs1),
        register_value(rs2),
        alu_funct_value(funct),
    );
    lemma_decode_encode_i(opcode_value(oc), register_value(rd), register_value(rs1), imm);
}

/// Constructs an R-format instruction. Each operand is shifted into its
/// position and masked to its field width; the caller is responsible
/// for keeping `funct` within 6 bits.
#[inline]
pub fn make_r_instruction(
    oc: Opcode,
    rd: RegisterId,
    rs1: RegisterId,
    rs2: RegisterId,
    funct: u32,
) -> (r: Word)
    ensures
        r == encode_r(
            opcode_value(oc),
            register_value(rd),
            register_value(rs1),
            register_value(rs2),
            funct,
        ),
{
    let oc_v = register_opcode_u32(oc);
    let rd_v = register_index(rd) as u32;
    let rs1_v = register_index(rs1) as u32;
    let rs2_v = register_index(rs2) as u32;
    ((oc_v << OPCODE_OFFSET) & OPCODE_MASK) | ((rd_v << RD_OFFSET) & RD_MASK)
        | ((rs1_v << RS1_OFFSET) & RS1_MASK) | ((rs2_v << RS2_OFFSET) & RS2_MASK)
        | ((funct << FUNCT_OFFSET) & FUNCT_MASK)
}

/// Constructs an ALU instruction: an R-format word with [`Opcode::ALU`]
/// and the given function code.
pub fn make_alu_instruction(funct: AluFunct, rd: RegisterId, rs1: RegisterId, rs2: RegisterId) -> (
    r: Word)
    ensures
        r == encode_r(
            opcode_value(Opcode::ALU),
            register_value(rd),
            register_value(rs1),
            register_value(rs2),
            alu_funct_value(funct),
        ),
{
    make_r_instruction(Opcode::ALU, rd, rs1, rs2, alu_funct_u32(funct))
}

/// Constructs a FLOP instruction: an R-format word with [`Opcode::FLOP`]
/// and the given function code.
pub fn make_flop_instruction(funct: FlopFunct, rd: RegisterId, rs1: RegisterId, rs2: RegisterId)
    -> (r: Word)
    ensures
        r == encode_r(
            opcode_value(Opcode::FLOP),
            register_value(rd),
            register_value(rs1),
            register_value(rs2),
            flop_funct_value(funct),
        ),
{
    make_r_instruction(Opcode::FLOP, rd, rs1, rs2, flop_funct_u32(funct))
}

/// Constructs an I-format instruction.
#[inline]
pub fn make_i_instruction(oc: Opcode, rd: RegisterId, rs1: RegisterId, immediate: Immediate) -> (
    r: Word)
    ensures
        r == encode_i(
            opcode_value(oc),
            register_value(rd),
            register_value(rs1),
            crate::numbers::u16_bits(immediate),
        ),
{
    let oc_v = register_opcode_u32(oc);
    let rd_v = register_index(rd) as u32;
    let rs1_v = register_index(rs1) as u32;
    let imm_v = crate::numbers::u16_from_i16(immediate) as u32;
    ((oc_v << OPCODE_OFFSET) & OPCODE_MASK) | ((rd_v << RD_OFFSET) & RD_MASK)
        | ((rs1_v << RS1_OFFSET) & RS1_MASK) | ((imm_v << IMMEDIATE_OFFSET) & IMMEDIATE_MASK)
}

/// Constructs a J-format instruction. The address operand is truncated
/// to its 26-bit field.
#[inline]
pub fn make_j_instruction(oc: Opcode, address: Address) -> (r: Word)
    ensures
        r == encode_j(opcode_value(oc), crate::numbers::u32_bits(address)),
{
    let oc_v = register_opcode_u32(oc);
    let addr_v = crate::numbers::u32_from_i32(address);
    ((oc_v << OPCODE_OFFSET) & OPCODE_MASK) | ((addr_v << ADDRESS_OFFSET) & ADDRESS_MASK)
}

/// The 6-bit encoding of an opcode, as an executable value.
fn register_opcode_u32(oc: Opcode) -> (r: u32)
    ensures
        r == opcode_value(oc),
{
    match oc {
        Opcode::NOP => 0,
        Opcode::ALU => 1,
        Opcode::HALT => 2,
        Opcode::CALL => 3,
        Opcode::COPY => 4,
        Opcode::LI => 5,
        Opcode::LHI => 6,
        Opcode::SLO => 7,
        Opcode::SHI => 8,
        Opcode::LB => 9,
        Opcode::LH => 10,
        Opcode::LW => 11,
        Opcode::SB => 12,
        Opcode::SH => 13,
        Opcode::SW => 14,
        Opcode::ADDI => 15,
        Opcode::SUBI => 16,
        Opcode::MULI => 17,
        Opcode::DIVI => 18,
        Opcode::ANDI => 19,
        Opcode::ORI => 20,
        Opcode::XORI => 21,
        Opcode::FLIP => 22,
        Opcode::SLLI => 23,
        Opcode::SRLI => 24,
        Opcode::SRAI => 25,
        Opcode::SEQI => 26,
        Opcode::SNEI => 27,
        Opcode::SLTI => 28,
        Opcode::SGTI => 29,
        Opcode::SLEI => 30,
        Opcode::SGEI => 31,
        Opcode::SLTUI => 32,
        Opcode::SGTUI => 33,
        Opcode::SLEUI => 34,
        Opcode::SGEUI => 35,
        Opcode::BEZ => 36,
        Opcode::BNZ => 37,
        Opcode::JMP => 38,
        Opcode::JL => 39,
        Opcode::JR => 40,
        Opcode::JLR => 41,
        Opcode::ITOF => 42,
        Opcode::FTOI => 43,
        Opcode::FLOP => 44,
    }
}

/// The 6-bit encoding of an ALU function code, as an executable value.
fn alu_funct_u32(f: AluFunct) -> (r: u32)
    ensures
        r == alu_funct_value(f),
{
    match f {
        AluFunct::ADD => 0,
        AluFunct::SUB => 1,
        AluFunct::MUL => 2,
        AluFunct::DIV => 3,
        AluFunct::AND => 4,
        AluFunct::OR => 5,
        AluFunct::XOR => 6,
        AluFunct::SLL => 7,
        AluFunct::SRL => 8,
        AluFunct::SRA => 9,
        AluFunct::SEQ => 10,
        AluFunct::SNE => 11,
        AluFunct::SLT => 12,
        AluFunct::SGT => 13,
        AluFunct::SLE => 14,
        AluFunct::SGE => 15,
        AluFunct::SLTU => 16,
        AluFunct::SGTU => 17,
        AluFunct::SLEU => 18,
        AluFunct::SGEU => 19,
    }
}

/// The 6-bit encoding of a floating-point function code, as an
/// executable value.
fn flop_funct_u32(f: FlopFunct) -> (r: u32)
    ensures
        r == flop_funct_value(f),
{
    match f {
        FlopFunct::FADD => 0,
        FlopFunct::FSUB => 1,
        FlopFunct::FMUL => 2,
        FlopFunct::FDIV => 3,
    }
}

} // verus!
