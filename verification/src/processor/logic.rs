//! Single-tick semantics: decoding an instruction word and carrying out
//! its effect on the register file and the storage.
//!
//! The meaning of one tick is pinned down by [`step_effect`], a pure
//! function from the instruction word, the program counter and the
//! register file to the one effect the instruction has; [`tick`] is the
//! executable interpreter, proved to realize that effect. All integer
//! arithmetic wraps around in two's complement; no overflow traps.

use vstd::prelude::*;

use crate::constants::{
    ADDRESS_MASK, ADDRESS_OFFSET, FUNCT_MASK, FUNCT_OFFSET, HIGH_BITS_MASK, IMMEDIATE_MASK,
    IMMEDIATE_OFFSET, LOW_BITS_MASK, OPCODE_MASK, OPCODE_OFFSET, RD_MASK, RD_OFFSET, RS1_MASK,
    RS1_OFFSET, RS2_MASK, RS2_OFFSET,
};
use crate::instructions::FlopFunct;
use crate::instructions::{
    alu_funct_from_value, instr_address, instr_funct, instr_immediate, instr_opcode, instr_rd,
    instr_rs1, instr_rs2, flop_funct_from_value, opcode_from_value, AluFunct, Opcode,
};
use crate::memory::{range_bytes, write_bytes, StorageMut};
use crate::numbers::{
    extend_16, i32_bits, i32_from_bits, sign_extend_16, sign_extend_26, u32_bits, u32_from_i32,
};
use crate::endian::{le_value, lemma_pow256_values};
use crate::processor::{ExitCode, FloatUnit};
use crate::register::Register;
use crate::Word;

verus! {

/// The outcome of one tick, before the program-counter rules of the
/// processor shell are applied.
#[derive(Clone, Copy, PartialEq, Eq, Structural, Debug)]
pub enum TickResult {
    /// Fall through to the next instruction.
    Next,
    /// Branch to the given byte address; when the flag is set, the
    /// return address is linked into `RA`.
    Jump(u32, bool),
    /// Terminate with the given code.
    Stop(ExitCode),
}

/// What a single instruction does, as decoded from the word alone:
/// which register is set to which value, which memory range is read or
/// written, where control transfers, or why execution stops.
pub enum Effect {
    /// No observable effect (`NOP`, and the reserved `CALL`).
    Quiet,
    /// One register receives a value; writes to register 0 are
    /// suppressed.
    SetReg { rd: u32, value: u32 },
    /// A destination register and then the remainder register `RM`
    /// receive values (`MUL`/`DIV` and their immediate forms).
    SetRegPair { rd: u32, value: u32, rm_value: u32 },
    /// `rd` receives `size` bytes read from storage at `address`,
    /// zero-extended; an unaddressable range stops the machine.
    Load { rd: u32, address: u32, size: u32 },
    /// `value` (below `256^size`) is written to storage at `address`;
    /// an unaddressable range stops the machine.
    Store { address: u32, size: u32, value: u32 },
    /// Control transfers to `target`, linking the return address when
    /// `link` is set.
    Branch { target: u32, link: bool },
    /// Execution stops with the given code.
    Stop { code: ExitCode },
    /// A floating-point instruction: `rd` receives the bit pattern the
    /// floating-point unit produces, about which nothing is specified.
    Flop { rd: u32 },
}

/// An integer reduced to its 32-bit two's-complement pattern.
pub open spec fn wrap32(x: int) -> u32 {
    (x % 0x1_0000_0000) as u32
}

/// `1` when the condition holds, `0` otherwise.
pub open spec fn b01(c: bool) -> u32 {
    if c {
        1
    } else {
        0
    }
}

/// The low 32 bits of the signed product of two register patterns.
pub open spec fn mul_lo(a: u32, b: u32) -> u32 {
    wrap32(i32_bits(a) * i32_bits(b))
}

/// The high 32 bits of the 64-bit signed product of two register
/// patterns.
pub open spec fn mul_hi(a: u32, b: u32) -> u32 {
    wrap32((i32_bits(a) * i32_bits(b)) / 0x1_0000_0000)
}

/// The quotient of signed division truncated toward zero.
pub open spec fn div_quot(x: int, d: int) -> int
    recommends
        d != 0,
{
    if x == 0 {
        0
    } else if x > 0 && d > 0 {
        x / d
    } else if x < 0 && d < 0 {
        (x * -1) / (d * -1)
    } else if x < 0 {
        ((x * -1) / d) * -1
    } else {
        (x / (d * -1)) * -1
    }
}

/// The remainder of signed division truncated toward zero: it carries
/// the sign of the dividend.
pub open spec fn div_rem(x: int, d: int) -> int
    recommends
        d != 0,
{
    if x == 0 {
        0
    } else if x > 0 && d > 0 {
        x % d
    } else if x < 0 && d < 0 {
        ((x * -1) % (d * -1)) * -1
    } else if x < 0 {
        ((x * -1) % d) * -1
    } else {
        x % (d * -1)
    }
}

/// The register pattern of the wrapping signed quotient.
pub open spec fn div_bits(a: u32, b: u32) -> u32 {
    wrap32(div_quot(i32_bits(a) as int, i32_bits(b) as int))
}

/// The register pattern of the signed remainder.
pub open spec fn rem_bits(a: u32, b: u32) -> u32 {
    wrap32(div_rem(i32_bits(a) as int, i32_bits(b) as int))
}

/// The result pattern of a single-result ALU operation on two register
/// patterns; for `MUL` and `DIV` this is the destination register's
/// share of the pair.
pub open spec fn alu_value(f: AluFunct, a: u32, b: u32) -> u32 {
    match f {
        AluFunct::ADD => vstd::wrapping::u32_specs::wrapping_add(a, b),
        AluFunct::SUB => vstd::wrapping::u32_specs::wrapping_sub(a, b),
        AluFunct::MUL => mul_lo(a, b),
        AluFunct::DIV => div_bits(a, b),
        AluFunct::AND => a & b,
        AluFunct::OR => a | b,
        AluFunct::XOR => a ^ b,
        AluFunct::SLL => vstd::wrapping::u32_specs::wrapping_shl(a, b),
        AluFunct::SRL => vstd::wrapping::u32_specs::wrapping_shr(a, b),
        AluFunct::SRA => u32_bits(vstd::wrapping::i32_specs::wrapping_shr(i32_bits(a), b)),
        AluFunct::SEQ => b01(a == b),
        AluFunct::SNE => b01(a != b),
        AluFunct::SLT => b01(i32_bits(a) < i32_bits(b)),
        AluFunct::SGT => b01(i32_bits(a) > i32_bits(b)),
        AluFunct::SLE => b01(i32_bits(a) <= i32_bits(b)),
        AluFunct::SGE => b01(i32_bits(a) >= i32_bits(b)),
        AluFunct::SLTU => b01(a < b),
        AluFunct::SGTU => b01(a > b),
        AluFunct::SLEU => b01(a <= b),
        AluFunct::SGEU => b01(a >= b),
    }
}

/// The raw patterns of a register file.
pub open spec fn reg_bits(regs: Seq<Register>) -> Seq<u32> {
    Seq::new(regs.len(), |i: int| regs[i].bits())
}

/// A register file after a write to register `rd`: writes targeting
/// register 0 have no effect.
pub open spec fn reg_store(regs: Seq<u32>, rd: u32, value: u32) -> Seq<u32> {
    if rd == 0 {
        regs
    } else {
        regs.update(rd as int, value)
    }
}

/// The effect of the instruction word `w`, decoded against the program
/// counter `pc` and the register patterns `regs`.
pub open spec fn step_effect(w: u32, pc: u32, regs: Seq<u32>) -> Effect
    recommends
        regs.len() == 32,
{
    let rd = instr_rd(w);
    let rdv = regs[rd as int];
    let rs1v = regs[instr_rs1(w) as int];
    let rs2v = regs[instr_rs2(w) as int];
    let imm = instr_immediate(w);
    let imm_u = imm as u32;
    let imm_ex = sign_extend_16(imm);
    let addr_ex = sign_extend_26(instr_address(w));
    match opcode_from_value(instr_opcode(w)) {
        None => Effect::Stop { code: ExitCode::InvalidOpcode },
        Some(oc) => match oc {
            Opcode::NOP => Effect::Quiet,
            Opcode::ALU => match alu_funct_from_value(instr_funct(w)) {
                None => Effect::Stop { code: ExitCode::InvalidOpcode },
                Some(f) => match f {
                    AluFunct::MUL => Effect::SetRegPair {
                        rd,
                        value: mul_lo(rs1v, rs2v),
                        rm_value: mul_hi(rs1v, rs2v),
                    },
                    AluFunct::DIV => if rs2v == 0 {
                        Effect::Stop { code: ExitCode::DivisionByZero }
                    } else {
                        Effect::SetRegPair {
                            rd,
                            value: div_bits(rs1v, rs2v),
                            rm_value: rem_bits(rs1v, rs2v),
                        }
                    },
                    _ => Effect::SetReg { rd, value: alu_value(f, rs1v, rs2v) },
                },
            },
            Opcode::HALT => Effect::Stop { code: ExitCode::Halted },
            Opcode::CALL => Effect::Quiet,
            Opcode::COPY => Effect::SetReg { rd, value: rs1v },
            Opcode::LI => Effect::SetReg { rd, value: imm_ex },
            Opcode::LHI => Effect::SetReg { rd, value: imm_u << 16 },
            Opcode::SLO => Effect::SetReg { rd, value: (rdv & HIGH_BITS_MASK) | imm_u },
            Opcode::SHI => Effect::SetReg { rd, value: (rdv & LOW_BITS_MASK) | (imm_u << 16) },
            Opcode::LB => Effect::Load {
                rd,
                address: vstd::wrapping::u32_specs::wrapping_add(rs1v, imm_ex),
                size: 1,
            },
            Opcode::LH => Effect::Load {
                rd,
                address: vstd::wrapping::u32_specs::wrapping_add(rs1v, imm_ex),
                size: 2,
            },
            Opcode::LW => Effect::Load {
                rd,
                address: vstd::wrapping::u32_specs::wrapping_add(rs1v, imm_ex),
                size: 4,
            },
            Opcode::SB => Effect::Store {
                address: vstd::wrapping::u32_specs::wrapping_add(rs1v, imm_ex),
                size: 1,
                value: rdv % 0x100,
            },
            Opcode::SH => Effect::Store {
                address: vstd::wrapping::u32_specs::wrapping_add(rs1v, imm_ex),
                size: 2,
                value: rdv % 0x1_0000,
            },
            Opcode::SW => Effect::Store {
                address: vstd::wrapping::u32_specs::wrapping_add(rs1v, imm_ex),
                size: 4,
                value: rdv,
            },
            Opcode::ADDI => Effect::SetReg { rd, value: alu_value(AluFunct::ADD, rs1v, imm_ex) },
            Opcode::SUBI => Effect::SetReg { rd, value: alu_value(AluFunct::SUB, rs1v, imm_ex) },
            Opcode::MULI => Effect::SetRegPair {
                rd,
                value: mul_lo(rs1v, imm_ex),
                rm_value: mul_hi(rs1v, imm_ex),
            },
            Opcode::DIVI => if imm_ex == 0 {
                Effect::Stop { code: ExitCode::DivisionByZero }
            } else {
                Effect::SetRegPair {
                    rd,
                    value: div_bits(rs1v, imm_ex),
                    rm_value: rem_bits(rs1v, imm_ex),
                }
            },
            Opcode::ANDI => Effect::SetReg { rd, value: alu_value(AluFunct::AND, rs1v, imm_ex) },
            Opcode::ORI => Effect::SetReg { rd, value: alu_value(AluFunct::OR, rs1v, imm_ex) },
            Opcode::XORI => Effect::SetReg { rd, value: alu_value(AluFunct::XOR, rs1v, imm_ex) },
            Opcode::FLIP => Effect::SetReg { rd, value: !rs1v },
            Opcode::SLLI => Effect::SetReg { rd, value: alu_value(AluFunct::SLL, rs1v, imm_ex) },
            Opcode::SRLI => Effect::SetReg { rd, value: alu_value(AluFunct::SRL, rs1v, imm_ex) },
            Opcode::SRAI => Effect::SetReg { rd, value: alu_value(AluFunct::SRA, rs1v, imm_ex) },
            Opcode::SEQI => Effect::SetReg { rd, value: alu_value(AluFunct::SEQ, rs1v, imm_ex) },
            Opcode::SNEI => Effect::SetReg { rd, value: alu_value(AluFunct::SNE, rs1v, imm_ex) },
            Opcode::SLTI => Effect::SetReg { rd, value: alu_value(AluFunct::SLT, rs1v, imm_ex) },
            Opcode::SGTI => Effect::SetReg { rd, value: alu_value(AluFunct::SGT, rs1v, imm_ex) },
            Opcode::SLEI => Effect::SetReg { rd, value: alu_value(AluFunct::SLE, rs1v, imm_ex) },
            Opcode::SGEI => Effect::SetReg { rd, value: alu_value(AluFunct::SGE, rs1v, imm_ex) },
            Opcode::SLTUI => Effect::SetReg { rd, value: alu_value(AluFunct::SLTU, rs1v, imm_u) },
            Opcode::SGTUI => Effect::SetReg { rd, value: alu_value(AluFunct::SGTU, rs1v, imm_u) },
            Opcode::SLEUI => Effect::SetReg { rd, value: alu_value(AluFunct::SLEU, rs1v, imm_u) },
            Opcode::SGEUI => Effect::SetReg { rd, value: alu_value(AluFunct::SGEU, rs1v, imm_u) },
            Opcode::BEZ => if rs1v == 0 {
                Effect::Branch {
                    target: vstd::wrapping::u32_specs::wrapping_add(pc, imm_ex),
                    link: false,
                }
            } else {
                Effect::Quiet
            },
            Opcode::BNZ => if rs1v != 0 {
                Effect::Branch {
                    target: vstd::wrapping::u32_specs::wrapping_add(pc, imm_ex),
                    link: false,
                }
            } else {
                Effect::Quiet
            },
            Opcode::JMP => Effect::Branch {
                target: vstd::wrapping::u32_specs::wrapping_add(pc, addr_ex),
                link: false,
            },
            Opcode::JL => Effect::Branch {
                target: vstd::wrapping::u32_specs::wrapping_add(pc, addr_ex),
                link: true,
            },
            Opcode::JR => Effect::Branch { target: rs1v, link: false },
            Opcode::JLR => Effect::Branch { target: rs1v, link: true },
            Opcode::ITOF => Effect::Flop { rd },
            Opcode::FTOI => Effect::Flop { rd },
            Opcode::FLOP => match flop_funct_from_value(instr_funct(w)) {
                None => Effect::Stop { code: ExitCode::InvalidOpcode },
                Some(_) => Effect::Flop { rd },
            },
        },
    }
}

/// Every field extracted from an instruction word fits its width.
pub proof fn lemma_field_bounds(w: u32)
    ensures
        instr_opcode(w) < 64,
        instr_rd(w) < 32,
        instr_rs1(w) < 32,
        instr_rs2(w) < 32,
        instr_funct(w) < 64,
        instr_address(w) < 0x400_0000,
{
    assert((w & OPCODE_MASK) >> OPCODE_OFFSET < 64 && (w & RD_MASK) >> RD_OFFSET < 32 && (w
        & RS1_MASK) >> RS1_OFFSET < 32 && (w & RS2_MASK) >> RS2_OFFSET < 32 && (w & FUNCT_MASK)
        >> FUNCT_OFFSET < 64 && (w & ADDRESS_MASK) >> ADDRESS_OFFSET < 0x400_0000) by (bit_vector);
}

/// The pattern of an in-range signed value is the value reduced modulo
/// `2^32`.
pub proof fn lemma_wrap32_bits(x: i32)
    ensures
        wrap32(x as int) == u32_bits(x),
{
}

/// Writes `value` into register `id`; a write to register 0 has no
/// effect.
fn write_u(registers: &mut Vec<Register>, id: usize, value: u32)
    requires
        old(registers)@.len() == 32,
        id < 32,
    ensures
        final(registers)@.len() == 32,
        reg_bits(final(registers)@) == reg_store(reg_bits(old(registers)@), id as u32, value),
{
    if id != 0 {
        registers[id] = Register::from_bits(value);
    }
    proof {
        assert(reg_bits(registers@) =~= reg_store(reg_bits(old(registers)@), id as u32, value));
    }
}

/// Writes the return address into the link register `RA`.
pub fn write_link(registers: &mut Vec<Register>, value: u32)
    requires
        old(registers)@.len() == 32,
    ensures
        final(registers)@.len() == 32,
        reg_bits(final(registers)@) == reg_store(reg_bits(old(registers)@), 31, value),
{
    write_u(registers, 31, value);
}

/// The low and high halves of the 64-bit signed product of two register
/// patterns.
fn mul_parts(a: u32, b: u32) -> (r: (u32, u32))
    ensures
        r.0 == mul_lo(a, b),
        r.1 == mul_hi(a, b),
{
    let ai = i32_from_bits(a) as i64;
    let bi = i32_from_bits(b) as i64;
    proof {
        assert(-0x4000_0000_0000_0000 <= ai * bi <= 0x4000_0000_0000_0000) by (nonlinear_arith)
            requires
                -0x8000_0000 <= ai <= 0x7FFF_FFFF,
                -0x8000_0000 <= bi <= 0x7FFF_FFFF,
        ;
    }
    let p: i64 = ai * bi;
    let pu: u64 = if p >= 0 {
        p as u64
    } else {
        (((p as i128) + 0x1_0000_0000_0000_0000i128) as u64)
    };
    let lo: u32 = (pu % 0x1_0000_0000) as u32;
    let hi: u32 = ((pu >> 32u64) % 0x1_0000_0000) as u32;
    proof {
        let pi = i32_bits(a) * i32_bits(b);
        let m = 0x1_0000_0000int;
        assert(pu >> 32u64 == pu as nat / vstd::arithmetic::power2::pow2(32)) by {
            vstd::bits::lemma_u64_shr_is_div(pu, 32);
        }
        assert(vstd::arithmetic::power2::pow2(32) == 0x1_0000_0000) by {
            vstd::arithmetic::power2::lemma2_to64();
        }
        vstd::arithmetic::div_mod::lemma_mod_bound(pi, m);
        vstd::arithmetic::div_mod::lemma_fundamental_div_mod(pi, m);
        if p >= 0 {
            assert(pu == pi);
        } else {
            let q = pi + 0x1_0000_0000_0000_0000int;
            assert(pu == q);
            assert(q % m == pi % m) by {
                vstd::arithmetic::div_mod::lemma_mod_multiples_vanish(m, pi, m);
            }
            assert(q / m == pi / m + m) by {
                assert(q == m * (pi / m + m) + pi % m) by (nonlinear_arith)
                    requires
                        q == pi + 0x1_0000_0000_0000_0000int,
                        m == 0x1_0000_0000int,
                        pi == m * (pi / m) + pi % m,
                ;
                vstd::arithmetic::div_mod::lemma_div_multiples_vanish_fancy(pi / m + m, pi % m, m);
            }
            assert((pi / m + m) % m == (pi / m) % m) by {
                vstd::arithmetic::div_mod::lemma_mod_multiples_vanish(1, pi / m, m);
            }
        }
    }
    (lo, hi)
}

/// The wrapping quotient and the remainder of signed division of two
/// register patterns; the divisor must not be zero.
fn div_parts(a: u32, b: u32) -> (r: (u32, u32))
    requires
        b != 0,
    ensures
        r.0 == div_bits(a, b),
        r.1 == rem_bits(a, b),
{
    let ai = i32_from_bits(a);
    let bi = i32_from_bits(b);
    let q: i32 = match ai.checked_div(bi) {
        Some(q) => q,
        None => i32::MIN,
    };
    let rm: i32 = match ai.checked_rem(bi) {
        Some(r) => r,
        None => 0,
    };
    proof {
        lemma_wrap32_bits(q);
        lemma_wrap32_bits(rm);
        let x = i32_bits(a) as int;
        let d = i32_bits(b) as int;
        if x == i32::MIN && d == -1 {
            assert(div_quot(x, d) == 0x8000_0000);
            assert(wrap32(0x8000_0000) == 0x8000_0000u32);
            assert(div_rem(x, d) == 0);
        }
    }
    (u32_from_i32(q), u32_from_i32(rm))
}

/// The result pattern of a single-result ALU operation, as executable
/// code.
fn alu_exec(f: AluFunct, a: u32, b: u32) -> (r: u32)
    requires
        f is DIV ==> b != 0,
    ensures
        r == alu_value(f, a, b),
{
    match f {
        AluFunct::ADD => a.wrapping_add(b),
        AluFunct::SUB => a.wrapping_sub(b),
        AluFunct::MUL => mul_parts(a, b).0,
        AluFunct::DIV => div_parts(a, b).0,
        AluFunct::AND => a & b,
        AluFunct::OR => a | b,
        AluFunct::XOR => a ^ b,
        AluFunct::SLL => a.wrapping_shl(b),
        AluFunct::SRL => a.wrapping_shr(b),
        AluFunct::SRA => u32_from_i32(i32_from_bits(a).wrapping_shr(b)),
        AluFunct::SEQ => if a == b { 1 } else { 0 },
        AluFunct::SNE => if a != b { 1 } else { 0 },
        AluFunct::SLT => if i32_from_bits(a) < i32_from_bits(b) { 1 } else { 0 },
        AluFunct::SGT => if i32_from_bits(a) > i32_from_bits(b) { 1 } else { 0 },
        AluFunct::SLE => if i32_from_bits(a) <= i32_from_bits(b) { 1 } else { 0 },
        AluFunct::SGE => if i32_from_bits(a) >= i32_from_bits(b) { 1 } else { 0 },
        AluFunct::SLTU => if a < b { 1 } else { 0 },
        AluFunct::SGTU => if a > b { 1 } else { 0 },
        AluFunct::SLEU => if a <= b { 1 } else { 0 },
        AluFunct::SGEU => if a >= b { 1 } else { 0 },
    }
}

/// Decodes and executes one instruction word against the register file
/// and the storage, producing the tick outcome; the program counter is
/// only read, the shell applies the resulting control transfer. The
/// outcome and every change to the registers and the storage are fixed
/// by [`step_effect`]; only the patterns a floating-point instruction
/// stores are left to the floating-point unit.
#[verifier::rlimit(100)]
#[verifier::spinoff_prover]
pub fn tick<S: StorageMut, F: FloatUnit>(
    registers: &mut Vec<Register>,
    storage: &mut S,
    instruction: Word,
    program_counter: u32,
    funit: &F,
) -> (r: TickResult)
    requires
        old(registers)@.len() == 32,
    ensures
        final(registers)@.len() == 32,
        reg_bits(final(registers)@)[0] == reg_bits(old(registers)@)[0],
        step_effect(instruction, program_counter, reg_bits(old(registers)@)) is Quiet ==> r
            == TickResult::Next && reg_bits(final(registers)@) == reg_bits(old(registers)@)
            && *final(storage) == *old(storage),
        step_effect(instruction, program_counter, reg_bits(old(registers)@)) matches
            Effect::SetReg { rd, value } ==> r == TickResult::Next && reg_bits(final(registers)@)
            == reg_store(reg_bits(old(registers)@), rd, value) && *final(storage) == *old(storage),
        step_effect(instruction, program_counter, reg_bits(old(registers)@)) matches
            Effect::SetRegPair { rd, value, rm_value } ==> r == TickResult::Next && reg_bits(
            final(registers)@,
        ) == reg_store(reg_store(reg_bits(old(registers)@), rd, value), 30, rm_value) && *final(storage) == *old(storage),
        step_effect(instruction, program_counter, reg_bits(old(registers)@)) matches
            Effect::Load { rd, address, size } ==> *final(storage) == *old(storage) && if old(storage).range_ok(address, size) {
            r == TickResult::Next && reg_bits(final(registers)@) == reg_store(
                reg_bits(old(registers)@),
                rd,
                le_value(range_bytes(old(storage).mem(), address, size)) as u32,
            )
        } else {
            r == TickResult::Stop(ExitCode::BadMemoryAccess) && reg_bits(final(registers)@)
                == reg_bits(old(registers)@)
        },
        step_effect(instruction, program_counter, reg_bits(old(registers)@)) matches
            Effect::Store { address, size, value } ==> reg_bits(final(registers)@) == reg_bits(
            old(registers)@,
        ) && final(storage).len() == old(storage).len() && final(storage).commits() == old(storage).commits() && (forall|a: u32, l: u32|
            final(storage).range_ok(a, l) == old(storage).range_ok(a, l)) && (r
            == TickResult::Stop(ExitCode::BadMemoryAccess) || r == TickResult::Next) && (r
            == TickResult::Stop(ExitCode::BadMemoryAccess) ==> !old(storage).range_ok(address, size)
            && final(storage).mem() == old(storage).mem()) && (old(storage).commits() && old(storage).range_ok(address, size) ==> r == TickResult::Next) && (r == TickResult::Next ==> final(storage).mem() == write_bytes(old(storage).mem(), address, size, value) || final(storage).mem()
            == old(storage).mem()) && (r == TickResult::Next && old(storage).commits() ==> final(storage).mem() == write_bytes(old(storage).mem(), address, size, value)),
        step_effect(instruction, program_counter, reg_bits(old(registers)@)) matches
            Effect::Branch { target, link } ==> r == TickResult::Jump(target, link) && reg_bits(
            final(registers)@,
        ) == reg_bits(old(registers)@) && *final(storage) == *old(storage),
        step_effect(instruction, program_counter, reg_bits(old(registers)@)) matches
            Effect::Stop { code } ==> r == TickResult::Stop(code) && reg_bits(final(registers)@)
            == reg_bits(old(registers)@) && *final(storage) == *old(storage),
        step_effect(instruction, program_counter, reg_bits(old(registers)@)) matches
            Effect::Flop { rd } ==> r == TickResult::Next && *final(storage) == *old(storage) && (
            forall|i: int|
                0 <= i < 32 && i != rd ==> reg_bits(final(registers)@)[i] == reg_bits(
                    old(registers)@,
                )[i]) && (rd == 0 ==> reg_bits(final(registers)@) == reg_bits(old(registers)@)),
{
    proof {
        lemma_field_bounds(instruction);
        lemma_pow256_values();
    }
    let op_val = (instruction & OPCODE_MASK) >> OPCODE_OFFSET;
    let oc = match Opcode::from_u32(op_val) {
        Some(oc) => oc,
        None => {
            return TickResult::Stop(ExitCode::InvalidOpcode);
        },
    };
    let rdid = ((instruction & RD_MASK) >> RD_OFFSET) as usize;
    let rs1id = ((instruction & RS1_MASK) >> RS1_OFFSET) as usize;
    let rs2id = ((instruction & RS2_MASK) >> RS2_OFFSET) as usize;
    let rdv = registers[rdid].u();
    let rs1v = registers[rs1id].u();
    let rs2v = registers[rs2id].u();
    let imm_u16: u16 = ((instruction & IMMEDIATE_MASK) >> IMMEDIATE_OFFSET) as u16;
    let imm_u: u32 = imm_u16 as u32;
    let imm_ex: u32 = extend_16(imm_u16);
    let address_field: u32 = (instruction & ADDRESS_MASK) >> ADDRESS_OFFSET;
    let addr_ex: u32 = if address_field < 0x200_0000 {
        address_field
    } else {
        address_field + 0xFC00_0000
    };
    match oc {
        Opcode::NOP => TickResult::Next,
        Opcode::ALU => {
            let funct_val = (instruction & FUNCT_MASK) >> FUNCT_OFFSET;
            match AluFunct::from_u32(funct_val) {
                None => TickResult::Stop(ExitCode::InvalidOpcode),
                Some(f) => match f {
                    AluFunct::MUL => {
                        let (lo, hi) = mul_parts(rs1v, rs2v);
                        write_u(registers, rdid, lo);
                        write_u(registers, 30, hi);
                        TickResult::Next
                    },
                    AluFunct::DIV => {
                        if rs2v == 0 {
                            TickResult::Stop(ExitCode::DivisionByZero)
                        } else {
                            let (q, rm) = div_parts(rs1v, rs2v);
                            write_u(registers, rdid, q);
                            write_u(registers, 30, rm);
                            TickResult::Next
                        }
                    },
                    _ => {
                        let v = alu_exec(f, rs1v, rs2v);
                        write_u(registers, rdid, v);
                        TickResult::Next
                    },
                },
            }
        },
        Opcode::HALT => TickResult::Stop(ExitCode::Halted),
        Opcode::CALL => TickResult::Next,
        Opcode::COPY => {
            write_u(registers, rdid, rs1v);
            TickResult::Next
        },
        Opcode::LI => {
            write_u(registers, rdid, imm_ex);
            TickResult::Next
        },
        Opcode::LHI => {
            write_u(registers, rdid, imm_u << 16u32);
            TickResult::Next
        },
        Opcode::SLO => {
            write_u(registers, rdid, (rdv & HIGH_BITS_MASK) | imm_u);
            TickResult::Next
        },
        Opcode::SHI => {
            write_u(registers, rdid, (rdv & LOW_BITS_MASK) | (imm_u << 16u32));
            TickResult::Next
        },
        Opcode::LB => {
            match storage.read(rs1v.wrapping_add(imm_ex), 1) {
                Ok(v) => {
                    write_u(registers, rdid, v);
                    TickResult::Next
                },
                Err(_) => TickResult::Stop(ExitCode::BadMemoryAccess),
            }
        },
        Opcode::LH => {
            match storage.read(rs1v.wrapping_add(imm_ex), 2) {
                Ok(v) => {
                    write_u(registers, rdid, v);
                    TickResult::Next
                },
                Err(_) => TickResult::Stop(ExitCode::BadMemoryAccess),
            }
        },
        Opcode::LW => {
            match storage.read(rs1v.wrapping_add(imm_ex), 4) {
                Ok(v) => {
                    write_u(registers, rdid, v);
                    TickResult::Next
                },
                Err(_) => TickResult::Stop(ExitCode::BadMemoryAccess),
            }
        },
        Opcode::SB => {
            match storage.write(rs1v.wrapping_add(imm_ex), 1, rdv % 0x100) {
                Ok(_) => TickResult::Next,
                Err(_) => TickResult::Stop(ExitCode::BadMemoryAccess),
            }
        },
        Opcode::SH => {
            match storage.write(rs1v.wrapping_add(imm_ex), 2, rdv % 0x1_0000) {
                Ok(_) => TickResult::Next,
                Err(_) => TickResult::Stop(ExitCode::BadMemoryAccess),
            }
        },
        Opcode::SW => {
            match storage.write(rs1v.wrapping_add(imm_ex), 4, rdv) {
                Ok(_) => TickResult::Next,
                Err(_) => TickResult::Stop(ExitCode::BadMemoryAccess),
            }
        },
        Opcode::ADDI => {
            write_u(registers, rdid, alu_exec(AluFunct::ADD, rs1v, imm_ex));
            TickResult::Next
        },
        Opcode::SUBI => {
            write_u(registers, rdid, alu_exec(AluFunct::SUB, rs1v, imm_ex));
            TickResult::Next
        },
        Opcode::MULI => {
            let (lo, hi) = mul_parts(rs1v, imm_ex);
            write_u(registers, rdid, lo);
            write_u(registers, 30, hi);
            TickResult::Next
        },
        Opcode::DIVI => {
            if imm_ex == 0 {
                TickResult::Stop(ExitCode::DivisionByZero)
            } else {
                let (q, rm) = div_parts(rs1v, imm_ex);
                write_u(registers, rdid, q);
                write_u(registers, 30, rm);
                TickResult::Next
            }
        },
        Opcode::ANDI => {
            write_u(registers, rdid, alu_exec(AluFunct::AND, rs1v, imm_ex));
            TickResult::Next
        },
        Opcode::ORI => {
            write_u(registers, rdid, alu_exec(AluFunct::OR, rs1v, imm_ex));
            TickResult::Next
        },
        Opcode::XORI => {
            write_u(registers, rdid, alu_exec(AluFunct::XOR, rs1v, imm_ex));
            TickResult::Next
        },
        Opcode::FLIP => {
            write_u(registers, rdid, !rs1v);
            TickResult::Next
        },
        Opcode::SLLI => {
            write_u(registers, rdid, alu_exec(AluFunct::SLL, rs1v, imm_ex));
            TickResult::Next
        },
        Opcode::SRLI => {
            write_u(registers, rdid, alu_exec(AluFunct::SRL, rs1v, imm_ex));
            TickResult::Next
        },
        Opcode::SRAI => {
            write_u(registers, rdid, alu_exec(AluFunct::SRA, rs1v, imm_ex));
            TickResult::Next
        },
        Opcode::SEQI => {
            write_u(registers, rdid, alu_exec(AluFunct::SEQ, rs1v, imm_ex));
            TickResult::Next
        },
        Opcode::SNEI => {
            write_u(registers, rdid, alu_exec(AluFunct::SNE, rs1v, imm_ex));
            TickResult::Next
        },
        Opcode::SLTI => {
            write_u(registers, rdid, alu_exec(AluFunct::SLT, rs1v, imm_ex));
            TickResult::Next
        },
        Opcode::SGTI => {
            write_u(registers, rdid, alu_exec(AluFunct::SGT, rs1v, imm_ex));
            TickResult::Next
        },
        Opcode::SLEI => {
            write_u(registers, rdid, alu_exec(AluFunct::SLE, rs1v, imm_ex));
            TickResult::Next
        },
        Opcode::SGEI => {
            write_u(registers, rdid, alu_exec(AluFunct::SGE, rs1v, imm_ex));
            TickResult::Next
        },
        Opcode::SLTUI => {
            write_u(registers, rdid, alu_exec(AluFunct::SLTU, rs1v, imm_u));
            TickResult::Next
        },
        Opcode::SGTUI => {
            write_u(registers, rdid, alu_exec(AluFunct::SGTU, rs1v, imm_u));
            TickResult::Next
        },
        Opcode::SLEUI => {
            write_u(registers, rdid, alu_exec(AluFunct::SLEU, rs1v, imm_u));
            TickResult::Next
        },
        Opcode::SGEUI => {
            write_u(registers, rdid, alu_exec(AluFunct::SGEU, rs1v, imm_u));
            TickResult::Next
        },
        Opcode::BEZ => {
            if rs1v == 0 {
                TickResult::Jump(program_counter.wrapping_add(imm_ex), false)
            } else {
                TickResult::Next
            }
        },
        Opcode::BNZ => {
            if rs1v != 0 {
                TickResult::Jump(program_counter.wrapping_add(imm_ex), false)
            } else {
                TickResult::Next
            }
        },
        Opcode::JMP => TickResult::Jump(program_counter.wrapping_add(addr_ex), false),
        Opcode::JL => TickResult::Jump(program_counter.wrapping_add(addr_ex), true),
        Opcode::JR => TickResult::Jump(rs1v, false),
        Opcode::JLR => TickResult::Jump(rs1v, true),
        Opcode::ITOF => {
            let v = funit.itof(i32_from_bits(rs1v));
            write_u(registers, rdid, v);
            TickResult::Next
        },
        Opcode::FTOI => {
            let v = u32_from_i32(funit.ftoi(rs1v));
            write_u(registers, rdid, v);
            TickResult::Next
        },
        Opcode::FLOP => {
            let funct_val = (instruction & FUNCT_MASK) >> FUNCT_OFFSET;
            match FlopFunct::from_u32(funct_val) {
                None => TickResult::Stop(ExitCode::InvalidOpcode),
                Some(ff) => {
                    let v = match ff {
                        FlopFunct::FADD => funit.fadd(rs1v, rs2v),
                        FlopFunct::FSUB => funit.fsub(rs1v, rs2v),
                        FlopFunct::FMUL => funit.fmul(rs1v, rs2v),
                        FlopFunct::FDIV => funit.fdiv(rs1v, rs2v),
                    };
                    write_u(registers, rdid, v);
                    TickResult::Next
                },
            }
        },
    }
}

} // verus!
