//! Single-instruction execution tests: each runs one instruction (or a
//! short program) on a fresh machine and checks the final registers,
//! storage, terminal state and program counter.

use vcpu::instructions::{
    make_alu_instruction, make_flop_instruction, make_i_instruction, make_j_instruction,
    register_index, AluFunct, FlopFunct, Opcode, RegisterId as R,
};
use vcpu::memory::Memory;
use vcpu::processor::{instructions_from_words, ExitCode, FloatUnit, Processor};
use vcpu::register::Register;

struct Fpu;

impl FloatUnit for Fpu {
    fn fadd(&self, a: u32, b: u32) -> u32 {
        (f32::from_bits(a) + f32::from_bits(b)).to_bits()
    }
    fn fsub(&self, a: u32, b: u32) -> u32 {
        (f32::from_bits(a) - f32::from_bits(b)).to_bits()
    }
    fn fmul(&self, a: u32, b: u32) -> u32 {
        (f32::from_bits(a) * f32::from_bits(b)).to_bits()
    }
    fn fdiv(&self, a: u32, b: u32) -> u32 {
        (f32::from_bits(a) / f32::from_bits(b)).to_bits()
    }
    fn itof(&self, value: i32) -> u32 {
        (value as f32).to_bits()
    }
    fn ftoi(&self, bits: u32) -> i32 {
        let f = f32::from_bits(bits);
        if f.is_finite() {
            f as i32
        } else {
            i32::MIN
        }
    }
}

trait ToBits {
    fn to_reg_bits(self) -> u32;
}
impl ToBits for u32 {
    fn to_reg_bits(self) -> u32 {
        self
    }
}
impl ToBits for i32 {
    fn to_reg_bits(self) -> u32 {
        self as u32
    }
}
impl ToBits for f32 {
    fn to_reg_bits(self) -> u32 {
        self.to_bits()
    }
}

fn bits<T: ToBits>(v: T) -> u32 {
    v.to_reg_bits()
}

fn nopw() -> u32 {
    make_i_instruction(Opcode::NOP, R::ZERO, R::ZERO, 0)
}

fn ii(oc: Opcode, rd: R, rs1: R, imm: i16) -> u32 {
    make_i_instruction(oc, rd, rs1, imm)
}

fn ia(f: AluFunct, rd: R, rs1: R, rs2: R) -> u32 {
    make_alu_instruction(f, rd, rs1, rs2)
}

fn iflop(f: FlopFunct, rd: R, rs1: R, rs2: R) -> u32 {
    make_flop_instruction(f, rd, rs1, rs2)
}

fn ij(oc: Opcode, addr: i32) -> u32 {
    make_j_instruction(oc, addr)
}

fn ir(oc: Opcode, rd: R, rs1: R, rs2: R, funct: u32) -> u32 {
    vcpu::instructions::make_r_instruction(oc, rd, rs1, rs2, funct)
}

#[allow(clippy::too_many_arguments)]
fn run_case(
    words: &[u32],
    init: Vec<(R, u32)>,
    expect: Vec<(R, u32)>,
    stor: Vec<u8>,
    estor: Vec<u8>,
    ticks: u64,
    state: Option<ExitCode>,
    pc: u32,
) {
    let program = instructions_from_words(words);
    let mut mem = Memory::from_vec(stor);
    let mut p = Processor::new();
    let mut expected: [u32; 32] = [0; 32];
    for (id, b) in &init {
        p.set_register(*id, Register::from_bits(*b));
        if register_index(*id) != 0 {
            expected[register_index(*id)] = *b;
        }
    }
    for (id, b) in &expect {
        if register_index(*id) != 0 {
            expected[register_index(*id)] = *b;
        }
    }
    let fpu = Fpu;
    for _ in 0..ticks {
        if p.tick(&program, &mut mem, &fpu).is_some() {
            break;
        }
    }
    assert_eq!(state, p.state(), "final state does not match");
    assert_eq!(pc, p.program_counter(), "final program counter does not match");
    for (i, e) in expected.iter().enumerate() {
        assert_eq!(*e, p.registers()[i].u(), "final value of register {} does not match", i);
    }
    assert_eq!(&estor, mem.data(), "final storage does not match");
}


#[test]
fn addi_positive() {
    run_case(
        &[
            ii(Opcode::ADDI, R::T0, R::T1, 1234),
            nopw(),
        ],
        vec![(R::T1, bits(5678))],
        vec![(R::T0, bits(6912))],
        Vec::new(),
        Vec::new(),
        1,
        None,
        4,
    );
}

#[test]
fn addi_negative_immediate() {
    run_case(
        &[
            ii(Opcode::ADDI, R::T0, R::T1, -1234),
            nopw(),
        ],
        vec![(R::T1, bits(5678))],
        vec![(R::T0, bits(4444))],
        Vec::new(),
        Vec::new(),
        1,
        None,
        4,
    );
}

#[test]
fn addi_negative_rs1() {
    run_case(
        &[
            ii(Opcode::ADDI, R::T0, R::T1, 1234),
            nopw(),
        ],
        vec![(R::T1, bits(-5678))],
        vec![(R::T0, bits(-4444))],
        Vec::new(),
        Vec::new(),
        1,
        None,
        4,
    );
}

#[test]
fn overflow() {
    run_case(
        &[
            ii(Opcode::ADDI, R::T0, R::T1, i16::MAX),
            nopw(),
        ],
        vec![(R::T1, bits(0xFFFF_FFFFu32))],
        vec![(R::T0, bits(0x0000_7FFEu32))],
        Vec::new(),
        Vec::new(),
        1,
        None,
        4,
    );
}

#[test]
fn andi_positive_immediate() {
    run_case(
        &[
            ii(Opcode::ANDI, R::T0, R::T1, 0b0111_1101_1010_0111u16 as i16),
            nopw(),
        ],
        vec![(R::T1, bits(0b0101_0011_0010_0011_1111_0100_0110_1011_u32))],
        vec![(R::T0, bits(0b0000_0000_0000_0000_0111_0100_0010_0011_u32))],
        Vec::new(),
        Vec::new(),
        1,
        None,
        4,
    );
}

#[test]
fn andi_negative_immediate() {
    run_case(
        &[
            ii(Opcode::ANDI, R::T0, R::T1, 0b1111_1101_1010_0111u16 as i16),
            nopw(),
        ],
        vec![(R::T1, bits(0b0101_0011_0010_0011_1111_0100_0110_1011_u32))],
        vec![(R::T0, bits(0b0101_0011_0010_0011_1111_0100_0010_0011_u32))],
        Vec::new(),
        Vec::new(),
        1,
        None,
        4,
    );
}

#[test]
fn branch_negative() {
    run_case(
        &[
            nopw(),
            nopw(),
            nopw(),
            ii(Opcode::BNZ, R::ZERO, R::T0, -8),
            nopw(),
        ],
        vec![(R::T0, bits(6))],
        vec![],
        Vec::new(),
        Vec::new(),
        4,
        None,
        4,
    );
}

#[test]
fn branch_positive() {
    run_case(
        &[
            nopw(),
            ii(Opcode::BNZ, R::ZERO, R::T0, 12),
            nopw(),
            nopw(),
            nopw(),
        ],
        vec![(R::T0, bits(2))],
        vec![],
        Vec::new(),
        Vec::new(),
        2,
        None,
        16,
    );
}

#[test]
fn no_branch_negative() {
    run_case(
        &[
            nopw(),
            nopw(),
            nopw(),
            ii(Opcode::BNZ, R::ZERO, R::T0, -8),
            nopw(),
        ],
        vec![(R::T0, bits(0))],
        vec![],
        Vec::new(),
        Vec::new(),
        4,
        None,
        16,
    );
}

#[test]
fn no_branch_positive() {
    run_case(
        &[
            nopw(),
            ii(Opcode::BNZ, R::ZERO, R::T0, 12),
            nopw(),
            nopw(),
            nopw(),
        ],
        vec![(R::T0, bits(0))],
        vec![],
        Vec::new(),
        Vec::new(),
        2,
        None,
        8,
    );
}

#[test]
fn bnz_bad_alignment() {
    run_case(
        &[
            nopw(),
            ii(Opcode::BNZ, R::ZERO, R::T0, 5),
            nopw(),
            nopw(),
            nopw(),
        ],
        vec![(R::T0, bits(1))],
        vec![],
        Vec::new(),
        Vec::new(),
        2,
        Some(ExitCode::BadAlignment),
        4,
    );
}

#[test]
fn bnz_bad_jump_positive() {
    run_case(
        &[
            nopw(),
            ii(Opcode::BNZ, R::ZERO, R::T0, 32),
            nopw(),
            nopw(),
            nopw(),
        ],
        vec![(R::T0, bits(1))],
        vec![],
        Vec::new(),
        Vec::new(),
        2,
        Some(ExitCode::BadJump),
        4,
    );
}

#[test]
fn bnz_bad_jump_negative() {
    run_case(
        &[
            nopw(),
            ii(Opcode::BNZ, R::ZERO, R::T0, -32),
            nopw(),
            nopw(),
            nopw(),
        ],
        vec![(R::T0, bits(1))],
        vec![],
        Vec::new(),
        Vec::new(),
        2,
        Some(ExitCode::BadJump),
        4,
    );
}

#[test]
fn copy_works() {
    run_case(
        &[
            ii(Opcode::COPY, R::T1, R::T0, 0),
            nopw(),
        ],
        vec![(R::T0, bits(0x1234_5678))],
        vec![(R::T1, bits(0x1234_5678))],
        Vec::new(),
        Vec::new(),
        1,
        None,
        4,
    );
}

#[test]
fn div_positive() {
    run_case(
        &[
            ia(AluFunct::DIV, R::T0, R::T1, R::T2),
            nopw(),
        ],
        vec![(R::T1, bits(2096)), (R::T2, bits(37))],
        vec![(R::T0, bits(56)), (R::RM, bits(24))],
        Vec::new(),
        Vec::new(),
        1,
        None,
        4,
    );
}

#[test]
fn div_negative_rs2() {
    run_case(
        &[
            ia(AluFunct::DIV, R::T0, R::T1, R::T2),
            nopw(),
        ],
        vec![(R::T1, bits(2096)), (R::T2, bits(-37))],
        vec![(R::T0, bits(-56)), (R::RM, bits(24))],
        Vec::new(),
        Vec::new(),
        1,
        None,
        4,
    );
}

#[test]
fn div_negative_rs1() {
    run_case(
        &[
            ia(AluFunct::DIV, R::T0, R::T1, R::T2),
            nopw(),
        ],
        vec![(R::T1, bits(-2096)), (R::T2, bits(37))],
        vec![(R::T0, bits(-56)), (R::RM, bits(-24))],
        Vec::new(),
        Vec::new(),
        1,
        None,
        4,
    );
}

#[test]
fn div_no_remainder_override_rm() {
    run_case(
        &[
            ia(AluFunct::DIV, R::T0, R::T1, R::T2),
            nopw(),
        ],
        vec![(R::T1, bits(2072)), (R::T2, bits(37)), (R::RM, bits(0x8127_6634u32))],
        vec![(R::T0, bits(56)), (R::RM, bits(0))],
        Vec::new(),
        Vec::new(),
        1,
        None,
        4,
    );
}

#[test]
fn div_by_zero() {
    run_case(
        &[
            ia(AluFunct::DIV, R::T0, R::T1, R::T2),
            nopw(),
        ],
        vec![(R::T1, bits(2072)), (R::T2, bits(0)), (R::RM, bits(0x8127_6634u32))],
        vec![],
        Vec::new(),
        Vec::new(),
        1,
        Some(ExitCode::DivisionByZero),
        0,
    );
}

#[test]
fn divi_positive() {
    run_case(
        &[
            ii(Opcode::DIVI, R::T0, R::T1, 37),
            nopw(),
        ],
        vec![(R::T1, bits(2096))],
        vec![(R::T0, bits(56)), (R::RM, bits(24))],
        Vec::new(),
        Vec::new(),
        1,
        None,
        4,
    );
}

#[test]
fn divi_negative_immediate() {
    run_case(
        &[
            ii(Opcode::DIVI, R::T0, R::T1, -37),
            nopw(),
        ],
        vec![(R::T1, bits(2096))],
        vec![(R::T0, bits(-56)), (R::RM, bits(24))],
        Vec::new(),
        Vec::new(),
        1,
        None,
        4,
    );
}

#[test]
fn divi_negative_rs1() {
    run_case(
        &[
            ii(Opcode::DIVI, R::T0, R::T1, 37),
            nopw(),
        ],
        vec![(R::T1, bits(-2096))],
        vec![(R::T0, bits(-56)), (R::RM, bits(-24))],
        Vec::new(),
        Vec::new(),
        1,
        None,
        4,
    );
}

#[test]
fn divi_no_remainder_override_rm() {
    run_case(
        &[
            ii(Opcode::DIVI, R::T0, R::T1, 37),
            nopw(),
        ],
        vec![(R::T1, bits(2072)), (R::RM, bits(0x8127_6634u32))],
        vec![(R::T0, bits(56)), (R::RM, bits(0))],
        Vec::new(),
        Vec::new(),
        1,
        None,
        4,
    );
}

#[test]
fn divi_by_zero() {
    run_case(
        &[
            ii(Opcode::DIVI, R::T0, R::T1, 0),
            nopw(),
        ],
        vec![(R::T1, bits(2072)), (R::RM, bits(0x8127_6634u32))],
        vec![],
        Vec::new(),
        Vec::new(),
        1,
        Some(ExitCode::DivisionByZero),
        0,
    );
}

#[test]
fn fadd_works() {
    run_case(
        &[
            iflop(FlopFunct::FADD, R::T0, R::T1, R::T2),
            nopw(),
        ],
        vec![(R::T1, bits(262.562_f32)), (R::T2, bits(-82.35_f32))],
        vec![(R::T0, bits(180.212_f32))],
        Vec::new(),
        Vec::new(),
        1,
        None,
        4,
    );
}

#[test]
fn fdiv_works() {
    run_case(
        &[
            iflop(FlopFunct::FDIV, R::T0, R::T1, R::T2),
            nopw(),
        ],
        vec![(R::T1, bits(262.562_f32)), (R::T2, bits(-82.35_f32))],
        vec![(R::T0, bits(-3.188_367_f32))],
        Vec::new(),
        Vec::new(),
        1,
        None,
        4,
    );
}

#[test]
fn flip_works() {
    run_case(
        &[
            ii(Opcode::FLIP, R::T0, R::T1, 0),
            nopw(),
        ],
        vec![(R::T1, bits(0b0101_0011_0010_0011_1111_0100_0110_1011_u32))],
        vec![(R::T0, bits(0b1010_1100_1101_1100_0000_1011_1001_0100_u32))],
        Vec::new(),
        Vec::new(),
        1,
        None,
        4,
    );
}

#[test]
fn fmul_works() {
    run_case(
        &[
            iflop(FlopFunct::FMUL, R::T0, R::T1, R::T2),
            nopw(),
        ],
        vec![(R::T1, bits(262.562_f32)), (R::T2, bits(-82.35_f32))],
        vec![(R::T0, bits(-21_621.98_f32))],
        Vec::new(),
        Vec::new(),
        1,
        None,
        4,
    );
}

#[test]
fn fsub_works() {
    run_case(
        &[
            iflop(FlopFunct::FSUB, R::T0, R::T1, R::T2),
            nopw(),
        ],
        vec![(R::T1, bits(262.562_f32)), (R::T2, bits(-82.35_f32))],
        vec![(R::T0, bits(344.912_02_f32))],
        Vec::new(),
        Vec::new(),
        1,
        None,
        4,
    );
}

#[test]
fn ftoi_zero() {
    run_case(
        &[
            ii(Opcode::FTOI, R::T0, R::T1, 0),
            nopw(),
        ],
        vec![(R::T1, bits(0f32))],
        vec![(R::T0, bits(0))],
        Vec::new(),
        Vec::new(),
        1,
        None,
        4,
    );
}

#[test]
fn whole_positive() {
    run_case(
        &[
            ii(Opcode::FTOI, R::T0, R::T1, 0),
            nopw(),
        ],
        vec![(R::T1, bits(56f32))],
        vec![(R::T0, bits(56))],
        Vec::new(),
        Vec::new(),
        1,
        None,
        4,
    );
}

#[test]
fn whole_negative() {
    run_case(
        &[
            ii(Opcode::FTOI, R::T0, R::T1, 0),
            nopw(),
        ],
        vec![(R::T1, bits(-56f32))],
        vec![(R::T0, bits(-56))],
        Vec::new(),
        Vec::new(),
        1,
        None,
        4,
    );
}

#[test]
fn real_positive() {
    run_case(
        &[
            ii(Opcode::FTOI, R::T0, R::T1, 0),
            nopw(),
        ],
        vec![(R::T1, bits(87455.88f32))],
        vec![(R::T0, bits(87455))],
        Vec::new(),
        Vec::new(),
        1,
        None,
        4,
    );
}

#[test]
fn real_negative() {
    run_case(
        &[
            ii(Opcode::FTOI, R::T0, R::T1, 0),
            nopw(),
        ],
        vec![(R::T1, bits(-2347.31f32))],
        vec![(R::T0, bits(-2347))],
        Vec::new(),
        Vec::new(),
        1,
        None,
        4,
    );
}

#[test]
fn small_positive() {
    run_case(
        &[
            ii(Opcode::FTOI, R::T0, R::T1, 0),
            nopw(),
        ],
        vec![(R::T1, bits(0.000_452f32))],
        vec![(R::T0, bits(0))],
        Vec::new(),
        Vec::new(),
        1,
        None,
        4,
    );
}

#[test]
fn small_negative() {
    run_case(
        &[
            ii(Opcode::FTOI, R::T0, R::T1, 0),
            nopw(),
        ],
        vec![(R::T1, bits(-0.000_31f32))],
        vec![(R::T0, bits(0))],
        Vec::new(),
        Vec::new(),
        1,
        None,
        4,
    );
}

#[test]
fn nan() {
    run_case(
        &[
            ii(Opcode::FTOI, R::T0, R::T1, 0),
            nopw(),
        ],
        vec![(R::T1, bits(f32::NAN))],
        vec![(R::T0, bits(i32::MIN))],
        Vec::new(),
        Vec::new(),
        1,
        None,
        4,
    );
}

#[test]
fn positive_infinity() {
    run_case(
        &[
            ii(Opcode::FTOI, R::T0, R::T1, 0),
            nopw(),
        ],
        vec![(R::T1, bits(f32::INFINITY))],
        vec![(R::T0, bits(i32::MIN))],
        Vec::new(),
        Vec::new(),
        1,
        None,
        4,
    );
}

#[test]
fn negative_infinity() {
    run_case(
        &[
            ii(Opcode::FTOI, R::T0, R::T1, 0),
            nopw(),
        ],
        vec![(R::T1, bits(f32::NEG_INFINITY))],
        vec![(R::T0, bits(i32::MIN))],
        Vec::new(),
        Vec::new(),
        1,
        None,
        4,
    );
}

#[test]
fn opcode() {
    run_case(
        &[
            0xFFFF_FFFFu32,
            nopw(),
        ],
        vec![],
        vec![],
        Vec::new(),
        Vec::new(),
        1,
        Some(ExitCode::InvalidOpcode),
        0,
    );
}

#[test]
fn alu_funct() {
    run_case(
        &[
            ir(Opcode::ALU, R::T0, R::T1, R::T2, 63),
            nopw(),
        ],
        vec![],
        vec![],
        Vec::new(),
        Vec::new(),
        1,
        Some(ExitCode::InvalidOpcode),
        0,
    );
}

#[test]
fn flop_funct() {
    run_case(
        &[
            ir(Opcode::FLOP, R::T0, R::T1, R::T2, 63),
            nopw(),
        ],
        vec![],
        vec![],
        Vec::new(),
        Vec::new(),
        1,
        Some(ExitCode::InvalidOpcode),
        0,
    );
}

#[test]
fn itof_zero() {
    run_case(
        &[
            ii(Opcode::ITOF, R::T0, R::T1, 0),
            nopw(),
        ],
        vec![(R::T1, bits(0))],
        vec![(R::T0, bits(0f32))],
        Vec::new(),
        Vec::new(),
        1,
        None,
        4,
    );
}

#[test]
fn itof_positive() {
    run_case(
        &[
            ii(Opcode::ITOF, R::T0, R::T1, 0),
            nopw(),
        ],
        vec![(R::T1, bits(234))],
        vec![(R::T0, bits(234f32))],
        Vec::new(),
        Vec::new(),
        1,
        None,
        4,
    );
}

#[test]
fn itof_negative() {
    run_case(
        &[
            ii(Opcode::ITOF, R::T0, R::T1, 0),
            nopw(),
        ],
        vec![(R::T1, bits(-2392))],
        vec![(R::T0, bits(-2392f32))],
        Vec::new(),
        Vec::new(),
        1,
        None,
        4,
    );
}

#[test]
fn max_value() {
    run_case(
        &[
            ii(Opcode::ITOF, R::T0, R::T1, 0),
            nopw(),
        ],
        vec![(R::T1, bits(i32::MAX))],
        vec![(R::T0, bits(2_147_483_647_f32))],
        Vec::new(),
        Vec::new(),
        1,
        None,
        4,
    );
}

#[test]
fn min_value() {
    run_case(
        &[
            ii(Opcode::ITOF, R::T0, R::T1, 0),
            nopw(),
        ],
        vec![(R::T1, bits(i32::MIN))],
        vec![(R::T0, bits(-2_147_483_648_f32))],
        Vec::new(),
        Vec::new(),
        1,
        None,
        4,
    );
}

#[test]
fn jl_negative() {
    run_case(
        &[
            nopw(),
            nopw(),
            nopw(),
            nopw(),
            nopw(),
            nopw(),
            nopw(),
            ij(Opcode::JL, -20),
            nopw(),
        ],
        vec![],
        vec![(R::RA, bits(32))],
        Vec::new(),
        Vec::new(),
        8,
        None,
        8,
    );
}

#[test]
fn jl_positive() {
    run_case(
        &[
            nopw(),
            nopw(),
            ij(Opcode::JL, 16),
            nopw(),
            nopw(),
            nopw(),
            nopw(),
            nopw(),
            nopw(),
        ],
        vec![],
        vec![(R::RA, bits(12))],
        Vec::new(),
        Vec::new(),
        3,
        None,
        24,
    );
}

#[test]
fn jl_bad_alignment() {
    run_case(
        &[
            nopw(),
            nopw(),
            ij(Opcode::JL, 14),
            nopw(),
            nopw(),
            nopw(),
            nopw(),
            nopw(),
            nopw(),
        ],
        vec![],
        vec![],
        Vec::new(),
        Vec::new(),
        3,
        Some(ExitCode::BadAlignment),
        8,
    );
}

#[test]
fn jl_bad_jump_positive() {
    run_case(
        &[
            nopw(),
            nopw(),
            ij(Opcode::JL, 44),
            nopw(),
            nopw(),
            nopw(),
            nopw(),
            nopw(),
            nopw(),
        ],
        vec![],
        vec![],
        Vec::new(),
        Vec::new(),
        3,
        Some(ExitCode::BadJump),
        8,
    );
}

#[test]
fn jl_bad_jump_negative() {
    run_case(
        &[
            nopw(),
            nopw(),
            ij(Opcode::JL, -12),
            nopw(),
            nopw(),
            nopw(),
            nopw(),
            nopw(),
            nopw(),
        ],
        vec![],
        vec![],
        Vec::new(),
        Vec::new(),
        3,
        Some(ExitCode::BadJump),
        8,
    );
}

#[test]
fn jlr_success() {
    run_case(
        &[
            nopw(),
            nopw(),
            ii(Opcode::JLR, R::ZERO, R::T0, 0),
            nopw(),
            nopw(),
            nopw(),
            nopw(),
            nopw(),
            nopw(),
        ],
        vec![(R::T0, bits(32))],
        vec![(R::RA, bits(12))],
        Vec::new(),
        Vec::new(),
        3,
        None,
        32,
    );
}

#[test]
fn jlr_bad_alignment() {
    run_case(
        &[
            nopw(),
            nopw(),
            ii(Opcode::JLR, R::ZERO, R::T0, 0),
            nopw(),
            nopw(),
            nopw(),
            nopw(),
            nopw(),
            nopw(),
        ],
        vec![(R::T0, bits(14))],
        vec![],
        Vec::new(),
        Vec::new(),
        3,
        Some(ExitCode::BadAlignment),
        8,
    );
}

#[test]
fn jlr_bad_jump_positive() {
    run_case(
        &[
            nopw(),
            nopw(),
            ii(Opcode::JLR, R::ZERO, R::T0, 0),
            nopw(),
            nopw(),
            nopw(),
            nopw(),
            nopw(),
            nopw(),
        ],
        vec![(R::T0, bits(44))],
        vec![],
        Vec::new(),
        Vec::new(),
        3,
        Some(ExitCode::BadJump),
        8,
    );
}

#[test]
fn jmp_negative() {
    run_case(
        &[
            nopw(),
            nopw(),
            nopw(),
            nopw(),
            nopw(),
            nopw(),
            nopw(),
            ij(Opcode::JMP, -20),
            nopw(),
        ],
        vec![],
        vec![],
        Vec::new(),
        Vec::new(),
        8,
        None,
        8,
    );
}

#[test]
fn jmp_positive() {
    run_case(
        &[
            nopw(),
            nopw(),
            ij(Opcode::JMP, 16),
            nopw(),
            nopw(),
            nopw(),
            nopw(),
            nopw(),
            nopw(),
        ],
        vec![],
        vec![],
        Vec::new(),
        Vec::new(),
        3,
        None,
        24,
    );
}

#[test]
fn jmp_bad_alignment() {
    run_case(
        &[
            nopw(),
            nopw(),
            ij(Opcode::JMP, 14),
            nopw(),
            nopw(),
            nopw(),
            nopw(),
            nopw(),
            nopw(),
        ],
        vec![],
        vec![],
        Vec::new(),
        Vec::new(),
        3,
        Some(ExitCode::BadAlignment),
        8,
    );
}

#[test]
fn jmp_bad_jump_positive() {
    run_case(
        &[
            nopw(),
            nopw(),
            ij(Opcode::JMP, 44),
            nopw(),
            nopw(),
            nopw(),
            nopw(),
            nopw(),
            nopw(),
        ],
        vec![],
        vec![],
        Vec::new(),
        Vec::new(),
        3,
        Some(ExitCode::BadJump),
        8,
    );
}

#[test]
fn jmp_bad_jump_negative() {
    run_case(
        &[
            nopw(),
            nopw(),
            ij(Opcode::JMP, -12),
            nopw(),
            nopw(),
            nopw(),
            nopw(),
            nopw(),
            nopw(),
        ],
        vec![],
        vec![],
        Vec::new(),
        Vec::new(),
        3,
        Some(ExitCode::BadJump),
        8,
    );
}

#[test]
fn jr_success() {
    run_case(
        &[
            nopw(),
            nopw(),
            ii(Opcode::JR, R::ZERO, R::T0, 0),
            nopw(),
            nopw(),
            nopw(),
            nopw(),
            nopw(),
            nopw(),
        ],
        vec![(R::T0, bits(24))],
        vec![],
        Vec::new(),
        Vec::new(),
        3,
        None,
        24,
    );
}

#[test]
fn jr_bad_alignment() {
    run_case(
        &[
            nopw(),
            nopw(),
            ii(Opcode::JR, R::ZERO, R::T0, 0),
            nopw(),
            nopw(),
            nopw(),
            nopw(),
            nopw(),
            nopw(),
        ],
        vec![(R::T0, bits(14))],
        vec![],
        Vec::new(),
        Vec::new(),
        3,
        Some(ExitCode::BadAlignment),
        8,
    );
}

#[test]
fn jr_bad_jump_positive() {
    run_case(
        &[
            nopw(),
            nopw(),
            ii(Opcode::JR, R::ZERO, R::T0, 0),
            nopw(),
            nopw(),
            nopw(),
            nopw(),
            nopw(),
            nopw(),
        ],
        vec![(R::T0, bits(44))],
        vec![],
        Vec::new(),
        Vec::new(),
        3,
        Some(ExitCode::BadJump),
        8,
    );
}

#[test]
fn jr_bad_jump_negative() {
    run_case(
        &[
            nopw(),
            nopw(),
            ii(Opcode::JR, R::ZERO, R::T0, 0),
            nopw(),
            nopw(),
            nopw(),
            nopw(),
            nopw(),
            nopw(),
        ],
        vec![(R::T0, bits(-12))],
        vec![],
        Vec::new(),
        Vec::new(),
        3,
        Some(ExitCode::BadJump),
        8,
    );
}

#[test]
fn lb_success() {
    run_case(
        &[
            ii(Opcode::LB, R::T0, R::T1, -1),
            nopw(),
        ],
        vec![(R::T1, bits(3))],
        vec![(R::T0, bits(0xFE))],
        vec![0xFF, 0xFF, 0xFE, 0xFF],
        vec![0xFF, 0xFF, 0xFE, 0xFF],
        1,
        None,
        4,
    );
}

#[test]
fn lb_bad_access() {
    run_case(
        &[
            ii(Opcode::LB, R::T0, R::T1, 0),
            nopw(),
        ],
        vec![(R::T1, bits(-4))],
        vec![],
        vec![0xFF, 0xFF, 0xFE, 0xFF],
        vec![0xFF, 0xFF, 0xFE, 0xFF],
        1,
        Some(ExitCode::BadMemoryAccess),
        0,
    );
}

#[test]
fn lh_success() {
    run_case(
        &[
            ii(Opcode::LH, R::T0, R::T1, 0),
            nopw(),
        ],
        vec![(R::T1, bits(2))],
        vec![(R::T0, bits(0xFFFE))],
        vec![0xFF, 0xFF, 0xFE, 0xFF],
        vec![0xFF, 0xFF, 0xFE, 0xFF],
        1,
        None,
        4,
    );
}

#[test]
fn lh_bad_access() {
    run_case(
        &[
            ii(Opcode::LH, R::T0, R::T1, 34),
            nopw(),
        ],
        vec![(R::T1, bits(2))],
        vec![],
        vec![0xFF, 0xFF, 0xFE, 0xFF],
        vec![0xFF, 0xFF, 0xFE, 0xFF],
        1,
        Some(ExitCode::BadMemoryAccess),
        0,
    );
}

#[test]
fn lhi_works() {
    run_case(
        &[
            ii(Opcode::LHI, R::T0, R::ZERO, 0x1234),
            nopw(),
        ],
        vec![],
        vec![(R::T0, bits(0x1234_0000))],
        Vec::new(),
        Vec::new(),
        1,
        None,
        4,
    );
}

#[test]
fn overrides_all_bits() {
    run_case(
        &[
            ii(Opcode::LHI, R::T0, R::ZERO, 0x4321),
            nopw(),
        ],
        vec![(R::T0, bits(0x1234_5678))],
        vec![(R::T0, bits(0x4321_0000))],
        Vec::new(),
        Vec::new(),
        1,
        None,
        4,
    );
}

#[test]
fn li_positive() {
    run_case(
        &[
            ii(Opcode::LI, R::T0, R::ZERO, 0x1234),
            nopw(),
        ],
        vec![],
        vec![(R::T0, bits(0x0000_1234))],
        Vec::new(),
        Vec::new(),
        1,
        None,
        4,
    );
}

#[test]
fn li_negative() {
    run_case(
        &[
            ii(Opcode::LI, R::T0, R::ZERO, -742),
            nopw(),
        ],
        vec![],
        vec![(R::T0, bits(-742))],
        Vec::new(),
        Vec::new(),
        1,
        None,
        4,
    );
}

#[test]
fn overrides_all_bits_no_sign_bit() {
    run_case(
        &[
            ii(Opcode::LI, R::T0, R::ZERO, 0x4321),
            nopw(),
        ],
        vec![(R::T0, bits(0x1234_5678))],
        vec![(R::T0, bits(0x0000_4321))],
        Vec::new(),
        Vec::new(),
        1,
        None,
        4,
    );
}

#[test]
fn overrides_all_bits_sign_bit() {
    run_case(
        &[
            ii(Opcode::LI, R::T0, R::ZERO, 0xF321u16 as i16),
            nopw(),
        ],
        vec![(R::T0, bits(0x1234_5678))],
        vec![(R::T0, bits(0xFFFF_F321u32))],
        Vec::new(),
        Vec::new(),
        1,
        None,
        4,
    );
}

#[test]
fn lw_success() {
    run_case(
        &[
            ii(Opcode::LW, R::T0, R::ZERO, 0),
            nopw(),
        ],
        vec![],
        vec![(R::T0, bits(0xFFFE_FFFFu32))],
        vec![0xFF, 0xFF, 0xFE, 0xFF],
        vec![0xFF, 0xFF, 0xFE, 0xFF],
        1,
        None,
        4,
    );
}

#[test]
fn lw_bad_access() {
    run_case(
        &[
            ii(Opcode::LW, R::T0, R::ZERO, -2),
            nopw(),
        ],
        vec![],
        vec![],
        vec![0xFF, 0xFF, 0xFE, 0xFF],
        vec![0xFF, 0xFF, 0xFE, 0xFF],
        1,
        Some(ExitCode::BadMemoryAccess),
        0,
    );
}

#[test]
fn mul_positive() {
    run_case(
        &[
            ia(AluFunct::MUL, R::T0, R::T1, R::T2),
            nopw(),
        ],
        vec![(R::T1, bits(8345)), (R::T2, bits(2873))],
        vec![(R::T0, bits(23_975_185)), (R::RM, bits(0))],
        Vec::new(),
        Vec::new(),
        1,
        None,
        4,
    );
}

#[test]
fn mul_negative_rs2() {
    run_case(
        &[
            ia(AluFunct::MUL, R::T0, R::T1, R::T2),
            nopw(),
        ],
        vec![(R::T1, bits(8345)), (R::T2, bits(-2873))],
        vec![(R::T0, bits(-23_975_185)), (R::RM, bits(-1))],
        Vec::new(),
        Vec::new(),
        1,
        None,
        4,
    );
}

#[test]
fn mul_negative_rs1() {
    run_case(
        &[
            ia(AluFunct::MUL, R::T0, R::T1, R::T2),
            nopw(),
        ],
        vec![(R::T1, bits(-8345)), (R::T2, bits(2873))],
        vec![(R::T0, bits(-23_975_185)), (R::RM, bits(-1))],
        Vec::new(),
        Vec::new(),
        1,
        None,
        4,
    );
}

#[test]
fn mul_overflow_positive() {
    run_case(
        &[
            ia(AluFunct::MUL, R::T0, R::T1, R::T2),
            nopw(),
        ],
        vec![(R::T1, bits(0x1234_5678)), (R::T2, bits(0x1234_5678))],
        vec![(R::T0, bits(0x1DF4_D840)), (R::RM, bits(0x14B_66DC))],
        Vec::new(),
        Vec::new(),
        1,
        None,
        4,
    );
}

#[test]
fn mul_overflow_negative() {
    run_case(
        &[
            ia(AluFunct::MUL, R::T0, R::T1, R::T2),
            nopw(),
        ],
        vec![(R::T1, bits(1_234_567)), (R::T2, bits(-1_234_567))],
        vec![(R::T0, bits(0x213E_04CF)), (R::RM, bits(0xFFFF_FE9Du32))],
        Vec::new(),
        Vec::new(),
        1,
        None,
        4,
    );
}

#[test]
fn mul_no_overflow_overwrite_rm_positive() {
    run_case(
        &[
            ia(AluFunct::MUL, R::T0, R::T1, R::T2),
            nopw(),
        ],
        vec![(R::T1, bits(10)), (R::T2, bits(10)), (R::RM, bits(0x1234_5678))],
        vec![(R::T0, bits(100)), (R::RM, bits(0))],
        Vec::new(),
        Vec::new(),
        1,
        None,
        4,
    );
}

#[test]
fn mul_no_overflow_overwrite_rm_negative() {
    run_case(
        &[
            ia(AluFunct::MUL, R::T0, R::T1, R::T2),
            nopw(),
        ],
        vec![(R::T1, bits(10)), (R::T2, bits(-10)), (R::RM, bits(0x1234_5678))],
        vec![(R::T0, bits(-100)), (R::RM, bits(-1))],
        Vec::new(),
        Vec::new(),
        1,
        None,
        4,
    );
}

#[test]
fn muli_positive() {
    run_case(
        &[
            ii(Opcode::MULI, R::T0, R::T1, 2873),
            nopw(),
        ],
        vec![(R::T1, bits(8345))],
        vec![(R::T0, bits(23_975_185)), (R::RM, bits(0))],
        Vec::new(),
        Vec::new(),
        1,
        None,
        4,
    );
}

#[test]
fn muli_negative_immediate() {
    run_case(
        &[
            ii(Opcode::MULI, R::T0, R::T1, -2873),
            nopw(),
        ],
        vec![(R::T1, bits(8345))],
        vec![(R::T0, bits(-23_975_185)), (R::RM, bits(-1))],
        Vec::new(),
        Vec::new(),
        1,
        None,
        4,
    );
}

#[test]
fn muli_negative_rs1() {
    run_case(
        &[
            ii(Opcode::MULI, R::T0, R::T1, 2873),
            nopw(),
        ],
        vec![(R::T1, bits(-8345))],
        vec![(R::T0, bits(-23_975_185)), (R::RM, bits(-1))],
        Vec::new(),
        Vec::new(),
        1,
        None,
        4,
    );
}

#[test]
fn muli_overflow_positive() {
    run_case(
        &[
            ii(Opcode::MULI, R::T0, R::T1, i16::MAX),
            nopw(),
        ],
        vec![(R::T1, bits(0x12_345_678))],
        vec![(R::T0, bits(0x1907_A988)), (R::RM, bits(0x91A))],
        Vec::new(),
        Vec::new(),
        1,
        None,
        4,
    );
}

#[test]
fn muli_overflow_negative() {
    run_case(
        &[
            ii(Opcode::MULI, R::T0, R::T1, i16::MIN),
            nopw(),
        ],
        vec![(R::T1, bits(1_234_567))],
        vec![(R::T0, bits(0x94BC_8000u32)), (R::RM, bits(0xFFFF_FFF6u32))],
        Vec::new(),
        Vec::new(),
        1,
        None,
        4,
    );
}

#[test]
fn muli_no_overflow_overwrite_rm_positive() {
    run_case(
        &[
            ii(Opcode::MULI, R::T0, R::T1, 10),
            nopw(),
        ],
        vec![(R::T1, bits(10)), (R::RM, bits(0x1234_5678))],
        vec![(R::T0, bits(100)), (R::RM, bits(0))],
        Vec::new(),
        Vec::new(),
        1,
        None,
        4,
    );
}

#[test]
fn muli_no_overflow_overwrite_rm_negative() {
    run_case(
        &[
            ii(Opcode::MULI, R::T0, R::T1, -10),
            nopw(),
        ],
        vec![(R::T1, bits(10)), (R::RM, bits(0x1234_5678))],
        vec![(R::T0, bits(-100)), (R::RM, bits(-1))],
        Vec::new(),
        Vec::new(),
        1,
        None,
        4,
    );
}

#[test]
fn ori_positive_immediate() {
    run_case(
        &[
            ii(Opcode::ORI, R::T0, R::T1, 0b0111_1101_1010_0111u16 as i16),
            nopw(),
        ],
        vec![(R::T1, bits(0b0101_0011_0010_0011_1111_0100_0110_1011_u32))],
        vec![(R::T0, bits(0b0101_0011_0010_0011_1111_1101_1110_1111_u32))],
        Vec::new(),
        Vec::new(),
        1,
        None,
        4,
    );
}

#[test]
fn ori_negative_immediate() {
    run_case(
        &[
            ii(Opcode::ORI, R::T0, R::T1, 0b1111_1101_1010_0111u16 as i16),
            nopw(),
        ],
        vec![(R::T1, bits(0b0101_0011_0010_0011_1111_0100_0110_1011_u32))],
        vec![(R::T0, bits(0b1111_1111_1111_1111_1111_1101_1110_1111_u32))],
        Vec::new(),
        Vec::new(),
        1,
        None,
        4,
    );
}

#[test]
fn sb_success() {
    run_case(
        &[
            ii(Opcode::SB, R::T0, R::T1, 3),
            nopw(),
        ],
        vec![(R::T0, bits(0x1234_5678u32)), (R::T1, bits(3))],
        vec![],
        vec![0u8; 8],
        vec![0, 0, 0, 0, 0, 0, 0x78u8, 0],
        1,
        None,
        4,
    );
}

#[test]
fn sb_bad_access() {
    run_case(
        &[
            ii(Opcode::SB, R::T0, R::T1, 5),
            nopw(),
        ],
        vec![(R::T0, bits(0x1234_5678u32)), (R::T1, bits(3))],
        vec![],
        vec![0u8; 8],
        vec![0u8; 8],
        1,
        Some(ExitCode::BadMemoryAccess),
        0,
    );
}

#[test]
fn seq_not_equal_false() {
    run_case(
        &[
            ia(AluFunct::SEQ, R::T0, R::T1, R::T2),
            nopw(),
        ],
        vec![(R::T0, bits(0xFFFF_FFFFu32)), (R::T1, bits(876_234)), (R::T2, bits(123_485))],
        vec![(R::T0, bits(0))],
        Vec::new(),
        Vec::new(),
        1,
        None,
        4,
    );
}

#[test]
fn seq_equal_true() {
    run_case(
        &[
            ia(AluFunct::SEQ, R::T0, R::T1, R::T2),
            nopw(),
        ],
        vec![(R::T0, bits(0xFFFF_FFFFu32)), (R::T1, bits(876_234)), (R::T2, bits(876_234))],
        vec![(R::T0, bits(1))],
        Vec::new(),
        Vec::new(),
        1,
        None,
        4,
    );
}

#[test]
fn seqi_not_equal_false() {
    run_case(
        &[
            ii(Opcode::SEQI, R::T0, R::T1, 12_348),
            nopw(),
        ],
        vec![(R::T0, bits(0xFFFF_FFFFu32)), (R::T1, bits(876_234))],
        vec![(R::T0, bits(0))],
        Vec::new(),
        Vec::new(),
        1,
        None,
        4,
    );
}

#[test]
fn seqi_equal_true() {
    run_case(
        &[
            ii(Opcode::SEQI, R::T0, R::T1, -25678),
            nopw(),
        ],
        vec![(R::T0, bits(0xFFFF_FFFFu32)), (R::T1, bits(-25678))],
        vec![(R::T0, bits(1))],
        Vec::new(),
        Vec::new(),
        1,
        None,
        4,
    );
}

#[test]
fn sgeu_not_greater_false() {
    run_case(
        &[
            ia(AluFunct::SGEU, R::T0, R::T1, R::T2),
            nopw(),
        ],
        vec![(R::T0, bits(0xFFFF_FFFFu32)), (R::T1, bits(123_843)), (R::T2, bits(876_234))],
        vec![(R::T0, bits(0))],
        Vec::new(),
        Vec::new(),
        1,
        None,
        4,
    );
}

#[test]
fn sgeu_equal_true() {
    run_case(
        &[
            ia(AluFunct::SGEU, R::T0, R::T1, R::T2),
            nopw(),
        ],
        vec![(R::T0, bits(0xFFFF_FFFFu32)), (R::T1, bits(876_234)), (R::T2, bits(876_234))],
        vec![(R::T0, bits(1))],
        Vec::new(),
        Vec::new(),
        1,
        None,
        4,
    );
}

#[test]
fn sgeu_different_signs_false() {
    run_case(
        &[
            ia(AluFunct::SGEU, R::T0, R::T1, R::T2),
            nopw(),
        ],
        vec![(R::T0, bits(0xFFFF_FFFFu32)), (R::T1, bits(876_234)), (R::T2, bits(-1))],
        vec![(R::T0, bits(0))],
        Vec::new(),
        Vec::new(),
        1,
        None,
        4,
    );
}

#[test]
fn sgeu_greater_true() {
    run_case(
        &[
            ia(AluFunct::SGEU, R::T0, R::T1, R::T2),
            nopw(),
        ],
        vec![(R::T0, bits(0xFFFF_FFFFu32)), (R::T1, bits(887_367)), (R::T2, bits(123_485))],
        vec![(R::T0, bits(1))],
        Vec::new(),
        Vec::new(),
        1,
        None,
        4,
    );
}

#[test]
fn sgeu_different_signs_true() {
    run_case(
        &[
            ia(AluFunct::SGEU, R::T0, R::T1, R::T2),
            nopw(),
        ],
        vec![(R::T0, bits(0xFFFF_FFFFu32)), (R::T1, bits(-1)), (R::T2, bits(887_367))],
        vec![(R::T0, bits(1))],
        Vec::new(),
        Vec::new(),
        1,
        None,
        4,
    );
}

#[test]
fn sgeui_not_greater_false() {
    run_case(
        &[
            ii(Opcode::SGEUI, R::T0, R::T1, 6_234),
            nopw(),
        ],
        vec![(R::T0, bits(0xFFFF_FFFFu32)), (R::T1, bits(3_843))],
        vec![(R::T0, bits(0))],
        Vec::new(),
        Vec::new(),
        1,
        None,
        4,
    );
}

#[test]
fn sgeui_equal_true() {
    run_case(
        &[
            ii(Opcode::SGEUI, R::T0, R::T1, 6_234),
            nopw(),
        ],
        vec![(R::T0, bits(0xFFFF_FFFFu32)), (R::T1, bits(6_234))],
        vec![(R::T0, bits(1))],
        Vec::new(),
        Vec::new(),
        1,
        None,
        4,
    );
}

#[test]
fn sgeui_does_not_extend_sign() {
    run_case(
        &[
            ii(Opcode::SGEUI, R::T0, R::T1, 65535_u16 as i16),
            nopw(),
        ],
        vec![(R::T0, bits(0xFFFF_FFFFu32)), (R::T1, bits(887_367))],
        vec![(R::T0, bits(1))],
        Vec::new(),
        Vec::new(),
        1,
        None,
        4,
    );
}

#[test]
fn sgeui_greater_true() {
    run_case(
        &[
            ii(Opcode::SGEUI, R::T0, R::T1, 3_485),
            nopw(),
        ],
        vec![(R::T0, bits(0xFFFF_FFFFu32)), (R::T1, bits(7_367))],
        vec![(R::T0, bits(1))],
        Vec::new(),
        Vec::new(),
        1,
        None,
        4,
    );
}

#[test]
fn sgeui_uses_unsigned_arithmetic() {
    run_case(
        &[
            ii(Opcode::SGEUI, R::T0, R::T1, 7_367),
            nopw(),
        ],
        vec![(R::T0, bits(0xFFFF_FFFFu32)), (R::T1, bits(-1))],
        vec![(R::T0, bits(1))],
        Vec::new(),
        Vec::new(),
        1,
        None,
        4,
    );
}

#[test]
fn sgti_not_greater_false() {
    run_case(
        &[
            ii(Opcode::SGTI, R::T0, R::T1, 6_234),
            nopw(),
        ],
        vec![(R::T0, bits(0xFFFF_FFFFu32)), (R::T1, bits(3_843))],
        vec![(R::T0, bits(0))],
        Vec::new(),
        Vec::new(),
        1,
        None,
        4,
    );
}

#[test]
fn sgti_equal_false() {
    run_case(
        &[
            ii(Opcode::SGTI, R::T0, R::T1, 6_234),
            nopw(),
        ],
        vec![(R::T0, bits(0xFFFF_FFFFu32)), (R::T1, bits(6_234))],
        vec![(R::T0, bits(0))],
        Vec::new(),
        Vec::new(),
        1,
        None,
        4,
    );
}

#[test]
fn sgti_different_signs_false() {
    run_case(
        &[
            ii(Opcode::SGTI, R::T0, R::T1, 6_234),
            nopw(),
        ],
        vec![(R::T0, bits(0xFFFF_FFFFu32)), (R::T1, bits(-1))],
        vec![(R::T0, bits(0))],
        Vec::new(),
        Vec::new(),
        1,
        None,
        4,
    );
}

#[test]
fn sgti_greater_true() {
    run_case(
        &[
            ii(Opcode::SGTI, R::T0, R::T1, 3_485),
            nopw(),
        ],
        vec![(R::T0, bits(0xFFFF_FFFFu32)), (R::T1, bits(7_367))],
        vec![(R::T0, bits(1))],
        Vec::new(),
        Vec::new(),
        1,
        None,
        4,
    );
}

#[test]
fn sgti_different_signs_true() {
    run_case(
        &[
            ii(Opcode::SGTI, R::T0, R::T1, -1),
            nopw(),
        ],
        vec![(R::T0, bits(0xFFFF_FFFFu32)), (R::T1, bits(887_367))],
        vec![(R::T0, bits(1))],
        Vec::new(),
        Vec::new(),
        1,
        None,
        4,
    );
}

#[test]
fn sh_success() {
    run_case(
        &[
            ii(Opcode::SH, R::T0, R::T1, -6),
            nopw(),
        ],
        vec![(R::T0, bits(0x1234_5678u32)), (R::T1, bits(8))],
        vec![],
        vec![0u8; 8],
        vec![0, 0, 0x78, 0x56, 0, 0, 0, 0],
        1,
        None,
        4,
    );
}

#[test]
fn sh_bad_access() {
    run_case(
        &[
            ii(Opcode::SH, R::T0, R::T1, 0),
            nopw(),
        ],
        vec![(R::T0, bits(0x1234_5678u32)), (R::T1, bits(8))],
        vec![],
        vec![0u8; 8],
        vec![0u8; 8],
        1,
        Some(ExitCode::BadMemoryAccess),
        0,
    );
}

#[test]
fn shi_no_sign_bit() {
    run_case(
        &[
            ii(Opcode::SHI, R::T0, R::ZERO, 0x1234),
            nopw(),
        ],
        vec![],
        vec![(R::T0, bits(0x1234_0000))],
        Vec::new(),
        Vec::new(),
        1,
        None,
        4,
    );
}

#[test]
fn shi_does_not_extend_sign() {
    run_case(
        &[
            ii(Opcode::SHI, R::T0, R::ZERO, -1),
            nopw(),
        ],
        vec![],
        vec![(R::T0, bits(0xFFFF_0000u32))],
        Vec::new(),
        Vec::new(),
        1,
        None,
        4,
    );
}

#[test]
fn shi_does_not_overwrite_high_bits_no_sign_bit() {
    run_case(
        &[
            ii(Opcode::SHI, R::T0, R::ZERO, 0x4321),
            nopw(),
        ],
        vec![(R::T0, bits(0x1234_5678))],
        vec![(R::T0, bits(0x4321_5678))],
        Vec::new(),
        Vec::new(),
        1,
        None,
        4,
    );
}

#[test]
fn shi_does_not_overwrite_high_bits_sign_bit() {
    run_case(
        &[
            ii(Opcode::SHI, R::T0, R::ZERO, 0xF321u16 as i16),
            nopw(),
        ],
        vec![(R::T0, bits(0x1234_5678))],
        vec![(R::T0, bits(0xF321_5678u32))],
        Vec::new(),
        Vec::new(),
        1,
        None,
        4,
    );
}

#[test]
fn slei_not_less_false() {
    run_case(
        &[
            ii(Opcode::SLEI, R::T0, R::T1, 3_843),
            nopw(),
        ],
        vec![(R::T0, bits(0xFFFF_FFFFu32)), (R::T1, bits(6_234))],
        vec![(R::T0, bits(0))],
        Vec::new(),
        Vec::new(),
        1,
        None,
        4,
    );
}

#[test]
fn slei_equal_true() {
    run_case(
        &[
            ii(Opcode::SLEI, R::T0, R::T1, 6_234),
            nopw(),
        ],
        vec![(R::T0, bits(0xFFFF_FFFFu32)), (R::T1, bits(6_234))],
        vec![(R::T0, bits(1))],
        Vec::new(),
        Vec::new(),
        1,
        None,
        4,
    );
}

#[test]
fn slei_different_signs_false() {
    run_case(
        &[
            ii(Opcode::SLEI, R::T0, R::T1, -1),
            nopw(),
        ],
        vec![(R::T0, bits(0xFFFF_FFFFu32)), (R::T1, bits(876_234))],
        vec![(R::T0, bits(0))],
        Vec::new(),
        Vec::new(),
        1,
        None,
        4,
    );
}

#[test]
fn slei_less_true() {
    run_case(
        &[
            ii(Opcode::SLEI, R::T0, R::T1, 7_367),
            nopw(),
        ],
        vec![(R::T0, bits(0xFFFF_FFFFu32)), (R::T1, bits(3_485))],
        vec![(R::T0, bits(1))],
        Vec::new(),
        Vec::new(),
        1,
        None,
        4,
    );
}

#[test]
fn slei_different_signs_true() {
    run_case(
        &[
            ii(Opcode::SLEI, R::T0, R::T1, 7_367),
            nopw(),
        ],
        vec![(R::T0, bits(0xFFFF_FFFFu32)), (R::T1, bits(-1))],
        vec![(R::T0, bits(1))],
        Vec::new(),
        Vec::new(),
        1,
        None,
        4,
    );
}

#[test]
fn sleu_not_less_false() {
    run_case(
        &[
            ia(AluFunct::SLEU, R::T0, R::T1, R::T2),
            nopw(),
        ],
        vec![(R::T0, bits(0xFFFF_FFFFu32)), (R::T1, bits(876_234)), (R::T2, bits(123_843))],
        vec![(R::T0, bits(0))],
        Vec::new(),
        Vec::new(),
        1,
        None,
        4,
    );
}

#[test]
fn sleu_equal_true() {
    run_case(
        &[
            ia(AluFunct::SLEU, R::T0, R::T1, R::T2),
            nopw(),
        ],
        vec![(R::T0, bits(0xFFFF_FFFFu32)), (R::T1, bits(876_234)), (R::T2, bits(876_234))],
        vec![(R::T0, bits(1))],
        Vec::new(),
        Vec::new(),
        1,
        None,
        4,
    );
}

#[test]
fn sleu_different_signs_false() {
    run_case(
        &[
            ia(AluFunct::SLEU, R::T0, R::T1, R::T2),
            nopw(),
        ],
        vec![(R::T0, bits(0xFFFF_FFFFu32)), (R::T1, bits(-1)), (R::T2, bits(876_234))],
        vec![(R::T0, bits(0))],
        Vec::new(),
        Vec::new(),
        1,
        None,
        4,
    );
}

#[test]
fn sleu_less_true() {
    run_case(
        &[
            ia(AluFunct::SLEU, R::T0, R::T1, R::T2),
            nopw(),
        ],
        vec![(R::T0, bits(0xFFFF_FFFFu32)), (R::T1, bits(123_485)), (R::T2, bits(887_367))],
        vec![(R::T0, bits(1))],
        Vec::new(),
        Vec::new(),
        1,
        None,
        4,
    );
}

#[test]
fn sleu_different_signs_true() {
    run_case(
        &[
            ia(AluFunct::SLEU, R::T0, R::T1, R::T2),
            nopw(),
        ],
        vec![(R::T0, bits(0xFFFF_FFFFu32)), (R::T1, bits(887_367)), (R::T2, bits(-1))],
        vec![(R::T0, bits(1))],
        Vec::new(),
        Vec::new(),
        1,
        None,
        4,
    );
}

#[test]
fn positive_amount() {
    run_case(
        &[
            ia(AluFunct::SLL, R::T0, R::T1, R::T2),
            nopw(),
        ],
        vec![(R::T1, bits(0b0101_0011_0010_0011_1111_0100_0110_1011_u32)), (R::T2, bits(13))],
        vec![(R::T0, bits(0b0111_1110_1000_1101_0110_0000_0000_0000_u32))],
        Vec::new(),
        Vec::new(),
        1,
        None,
        4,
    );
}

#[test]
fn negative_amount() {
    run_case(
        &[
            ia(AluFunct::SLL, R::T0, R::T1, R::T2),
            nopw(),
        ],
        vec![(R::T1, bits(0b0101_0011_0010_0011_1111_0100_0110_1011_u32)), (R::T2, bits(-6))],
        vec![(R::T0, bits(0b1010_1100_0000_0000_0000_0000_0000_0000_u32))],
        Vec::new(),
        Vec::new(),
        1,
        None,
        4,
    );
}

#[test]
fn slo_no_sign_bit() {
    run_case(
        &[
            ii(Opcode::SLO, R::T0, R::ZERO, 0x1234),
            nopw(),
        ],
        vec![],
        vec![(R::T0, bits(0x0000_1234))],
        Vec::new(),
        Vec::new(),
        1,
        None,
        4,
    );
}

#[test]
fn slo_does_not_extend_sign() {
    run_case(
        &[
            ii(Opcode::SLO, R::T0, R::ZERO, -1),
            nopw(),
        ],
        vec![],
        vec![(R::T0, bits(0x0000_FFFF))],
        Vec::new(),
        Vec::new(),
        1,
        None,
        4,
    );
}

#[test]
fn slo_does_not_overwrite_high_bits_no_sign_bit() {
    run_case(
        &[
            ii(Opcode::SLO, R::T0, R::ZERO, 0x4321),
            nopw(),
        ],
        vec![(R::T0, bits(0x1234_5678))],
        vec![(R::T0, bits(0x1234_4321))],
        Vec::new(),
        Vec::new(),
        1,
        None,
        4,
    );
}

#[test]
fn slo_does_not_overwrite_high_bits_sign_bit() {
    run_case(
        &[
            ii(Opcode::SLO, R::T0, R::ZERO, 0xF321u16 as i16),
            nopw(),
        ],
        vec![(R::T0, bits(0x1234_5678))],
        vec![(R::T0, bits(0x1234_F321))],
        Vec::new(),
        Vec::new(),
        1,
        None,
        4,
    );
}

#[test]
fn slt_not_less_false() {
    run_case(
        &[
            ia(AluFunct::SLT, R::T0, R::T1, R::T2),
            nopw(),
        ],
        vec![(R::T0, bits(0xFFFF_FFFFu32)), (R::T1, bits(876_234)), (R::T2, bits(123_843))],
        vec![(R::T0, bits(0))],
        Vec::new(),
        Vec::new(),
        1,
        None,
        4,
    );
}

#[test]
fn slt_equal_false() {
    run_case(
        &[
            ia(AluFunct::SLT, R::T0, R::T1, R::T2),
            nopw(),
        ],
        vec![(R::T0, bits(0xFFFF_FFFFu32)), (R::T1, bits(876_234)), (R::T2, bits(876_234))],
        vec![(R::T0, bits(0))],
        Vec::new(),
        Vec::new(),
        1,
        None,
        4,
    );
}

#[test]
fn slt_different_signs_false() {
    run_case(
        &[
            ia(AluFunct::SLT, R::T0, R::T1, R::T2),
            nopw(),
        ],
        vec![(R::T0, bits(0xFFFF_FFFFu32)), (R::T1, bits(876_234)), (R::T2, bits(-1))],
        vec![(R::T0, bits(0))],
        Vec::new(),
        Vec::new(),
        1,
        None,
        4,
    );
}

#[test]
fn slt_less_true() {
    run_case(
        &[
            ia(AluFunct::SLT, R::T0, R::T1, R::T2),
            nopw(),
        ],
        vec![(R::T0, bits(0xFFFF_FFFFu32)), (R::T1, bits(123_485)), (R::T2, bits(887_367))],
        vec![(R::T0, bits(1))],
        Vec::new(),
        Vec::new(),
        1,
        None,
        4,
    );
}

#[test]
fn slt_different_signs_true() {
    run_case(
        &[
            ia(AluFunct::SLT, R::T0, R::T1, R::T2),
            nopw(),
        ],
        vec![(R::T0, bits(0xFFFF_FFFFu32)), (R::T1, bits(-1)), (R::T2, bits(887_367))],
        vec![(R::T0, bits(1))],
        Vec::new(),
        Vec::new(),
        1,
        None,
        4,
    );
}

#[test]
fn slti_not_less_false() {
    run_case(
        &[
            ii(Opcode::SLTI, R::T0, R::T1, 23_843),
            nopw(),
        ],
        vec![(R::T0, bits(0xFFFF_FFFFu32)), (R::T1, bits(876_234)), (R::T2, bits(123_843))],
        vec![(R::T0, bits(0))],
        Vec::new(),
        Vec::new(),
        1,
        None,
        4,
    );
}

#[test]
fn slti_equal_false() {
    run_case(
        &[
            ii(Opcode::SLTI, R::T0, R::T1, 23_843),
            nopw(),
        ],
        vec![(R::T0, bits(0xFFFF_FFFFu32)), (R::T1, bits(23_843))],
        vec![(R::T0, bits(0))],
        Vec::new(),
        Vec::new(),
        1,
        None,
        4,
    );
}

#[test]
fn slti_different_signs_false() {
    run_case(
        &[
            ii(Opcode::SLTI, R::T0, R::T1, -1),
            nopw(),
        ],
        vec![(R::T0, bits(0xFFFF_FFFFu32)), (R::T1, bits(876_234))],
        vec![(R::T0, bits(0))],
        Vec::new(),
        Vec::new(),
        1,
        None,
        4,
    );
}

#[test]
fn slti_less_true() {
    run_case(
        &[
            ii(Opcode::SLTI, R::T0, R::T1, 27_367),
            nopw(),
        ],
        vec![(R::T0, bits(0xFFFF_FFFFu32)), (R::T1, bits(13_485))],
        vec![(R::T0, bits(1))],
        Vec::new(),
        Vec::new(),
        1,
        None,
        4,
    );
}

#[test]
fn slti_different_signs_true() {
    run_case(
        &[
            ii(Opcode::SLTI, R::T0, R::T1, 7374),
            nopw(),
        ],
        vec![(R::T0, bits(0xFFFF_FFFFu32)), (R::T1, bits(-1))],
        vec![(R::T0, bits(1))],
        Vec::new(),
        Vec::new(),
        1,
        None,
        4,
    );
}

#[test]
fn sltui_not_less_false() {
    run_case(
        &[
            ii(Opcode::SLTUI, R::T0, R::T1, 23_843),
            nopw(),
        ],
        vec![(R::T0, bits(0xFFFF_FFFFu32)), (R::T1, bits(76_234))],
        vec![(R::T0, bits(0))],
        Vec::new(),
        Vec::new(),
        1,
        None,
        4,
    );
}

#[test]
fn sltui_equal_false() {
    run_case(
        &[
            ii(Opcode::SLTUI, R::T0, R::T1, 6_234),
            nopw(),
        ],
        vec![(R::T0, bits(0xFFFF_FFFFu32)), (R::T1, bits(6_234))],
        vec![(R::T0, bits(0))],
        Vec::new(),
        Vec::new(),
        1,
        None,
        4,
    );
}

#[test]
fn sltui_uses_unsigned_arithmetic() {
    run_case(
        &[
            ii(Opcode::SLTUI, R::T0, R::T1, 6_234),
            nopw(),
        ],
        vec![(R::T0, bits(0xFFFF_FFFFu32)), (R::T1, bits(-1))],
        vec![(R::T0, bits(0))],
        Vec::new(),
        Vec::new(),
        1,
        None,
        4,
    );
}

#[test]
fn sltui_less_true() {
    run_case(
        &[
            ii(Opcode::SLTUI, R::T0, R::T1, 7_367),
            nopw(),
        ],
        vec![(R::T0, bits(0xFFFF_FFFFu32)), (R::T1, bits(3_485))],
        vec![(R::T0, bits(1))],
        Vec::new(),
        Vec::new(),
        1,
        None,
        4,
    );
}

#[test]
fn sltui_does_not_extend_sign() {
    run_case(
        &[
            ii(Opcode::SLTUI, R::T0, R::T1, 65535_u16 as i16),
            nopw(),
        ],
        vec![(R::T0, bits(0xFFFF_FFFFu32)), (R::T1, bits(887_367))],
        vec![(R::T0, bits(0))],
        Vec::new(),
        Vec::new(),
        1,
        None,
        4,
    );
}

#[test]
fn sne_equal_false() {
    run_case(
        &[
            ia(AluFunct::SNE, R::T0, R::T1, R::T2),
            nopw(),
        ],
        vec![(R::T0, bits(0xFFFF_FFFFu32)), (R::T1, bits(876_234)), (R::T2, bits(876_234))],
        vec![(R::T0, bits(0))],
        Vec::new(),
        Vec::new(),
        1,
        None,
        4,
    );
}

#[test]
fn sne_not_equal_true() {
    run_case(
        &[
            ia(AluFunct::SNE, R::T0, R::T1, R::T2),
            nopw(),
        ],
        vec![(R::T0, bits(0xFFFF_FFFFu32)), (R::T1, bits(876_234)), (R::T2, bits(123_485))],
        vec![(R::T0, bits(1))],
        Vec::new(),
        Vec::new(),
        1,
        None,
        4,
    );
}

#[test]
fn snei_equal_false() {
    run_case(
        &[
            ii(Opcode::SNEI, R::T0, R::T1, -25678),
            nopw(),
        ],
        vec![(R::T0, bits(0xFFFF_FFFFu32)), (R::T1, bits(-25678))],
        vec![(R::T0, bits(0))],
        Vec::new(),
        Vec::new(),
        1,
        None,
        4,
    );
}

#[test]
fn snei_not_equal_true() {
    run_case(
        &[
            ii(Opcode::SNEI, R::T0, R::T1, -1234),
            nopw(),
        ],
        vec![(R::T0, bits(0xFFFF_FFFFu32)), (R::T1, bits(876_234))],
        vec![(R::T0, bits(1))],
        Vec::new(),
        Vec::new(),
        1,
        None,
        4,
    );
}

#[test]
fn sra_sign_bit_not_set_positive_amount() {
    run_case(
        &[
            ia(AluFunct::SRA, R::T0, R::T1, R::T2),
            nopw(),
        ],
        vec![(R::T1, bits(0b0101_0011_0010_0011_1111_0100_0110_1011_u32)), (R::T2, bits(13))],
        vec![(R::T0, bits(0b0000_0000_0000_0010_1001_1001_0001_1111_u32))],
        Vec::new(),
        Vec::new(),
        1,
        None,
        4,
    );
}

#[test]
fn sra_sign_bit_set_positive_amount() {
    run_case(
        &[
            ia(AluFunct::SRA, R::T0, R::T1, R::T2),
            nopw(),
        ],
        vec![(R::T1, bits(0b1101_0011_0010_0011_1111_0100_0110_1011_u32)), (R::T2, bits(13))],
        vec![(R::T0, bits(0b1111_1111_1111_1110_1001_1001_0001_1111_u32))],
        Vec::new(),
        Vec::new(),
        1,
        None,
        4,
    );
}

#[test]
fn sra_sign_bit_not_set_negative_amount() {
    run_case(
        &[
            ia(AluFunct::SRA, R::T0, R::T1, R::T2),
            nopw(),
        ],
        vec![(R::T1, bits(0b0101_0011_0010_0011_1111_0100_0110_1011_u32)), (R::T2, bits(-6))],
        vec![(R::T0, bits(0b0000_0000_0000_0000_0000_0000_0001_0100_u32))],
        Vec::new(),
        Vec::new(),
        1,
        None,
        4,
    );
}

#[test]
fn sra_sign_bit_set_negative_amount() {
    run_case(
        &[
            ia(AluFunct::SRA, R::T0, R::T1, R::T2),
            nopw(),
        ],
        vec![(R::T1, bits(0b1101_0011_0010_0011_1111_0100_0110_1011_u32)), (R::T2, bits(-6))],
        vec![(R::T0, bits(0b1111_1111_1111_1111_1111_1111_1111_0100_u32))],
        Vec::new(),
        Vec::new(),
        1,
        None,
        4,
    );
}

#[test]
fn srli_sign_bit_not_set_positive_amount() {
    run_case(
        &[
            ii(Opcode::SRLI, R::T0, R::T1, 13),
            nopw(),
        ],
        vec![(R::T1, bits(0b0101_0011_0010_0011_1111_0100_0110_1011_u32))],
        vec![(R::T0, bits(0b0000_0000_0000_0010_1001_1001_0001_1111_u32))],
        Vec::new(),
        Vec::new(),
        1,
        None,
        4,
    );
}

#[test]
fn srli_sign_bit_set_positive_amount() {
    run_case(
        &[
            ii(Opcode::SRLI, R::T0, R::T1, 13),
            nopw(),
        ],
        vec![(R::T1, bits(0b1101_0011_0010_0011_1111_0100_0110_1011_u32))],
        vec![(R::T0, bits(0b0000_0000_0000_0110_1001_1001_0001_1111_u32))],
        Vec::new(),
        Vec::new(),
        1,
        None,
        4,
    );
}

#[test]
fn srli_sign_bit_not_set_negative_amount() {
    run_case(
        &[
            ii(Opcode::SRLI, R::T0, R::T1, -6),
            nopw(),
        ],
        vec![(R::T1, bits(0b0101_0011_0010_0011_1111_0100_0110_1011_u32))],
        vec![(R::T0, bits(0b0000_0000_0000_0000_0000_0000_0001_0100_u32))],
        Vec::new(),
        Vec::new(),
        1,
        None,
        4,
    );
}

#[test]
fn srli_sign_bit_set_negative_amount() {
    run_case(
        &[
            ii(Opcode::SRLI, R::T0, R::T1, -6),
            nopw(),
        ],
        vec![(R::T1, bits(0b1101_0011_0010_0011_1111_0100_0110_1011_u32))],
        vec![(R::T0, bits(0b0000_0000_0000_0000_0000_0000_0011_0100_u32))],
        Vec::new(),
        Vec::new(),
        1,
        None,
        4,
    );
}

#[test]
fn sub_positive() {
    run_case(
        &[
            ia(AluFunct::SUB, R::T0, R::T1, R::T2),
            nopw(),
        ],
        vec![(R::T1, bits(5678)), (R::T2, bits(1234))],
        vec![(R::T0, bits(4444))],
        Vec::new(),
        Vec::new(),
        1,
        None,
        4,
    );
}

#[test]
fn sub_negative_rs2() {
    run_case(
        &[
            ia(AluFunct::SUB, R::T0, R::T1, R::T2),
            nopw(),
        ],
        vec![(R::T1, bits(5678)), (R::T2, bits(-1234))],
        vec![(R::T0, bits(6912))],
        Vec::new(),
        Vec::new(),
        1,
        None,
        4,
    );
}

#[test]
fn sub_negative_rs1() {
    run_case(
        &[
            ia(AluFunct::SUB, R::T0, R::T1, R::T2),
            nopw(),
        ],
        vec![(R::T1, bits(-5678)), (R::T2, bits(1234))],
        vec![(R::T0, bits(-6912))],
        Vec::new(),
        Vec::new(),
        1,
        None,
        4,
    );
}

#[test]
fn subi_positive() {
    run_case(
        &[
            ii(Opcode::SUBI, R::T0, R::T1, 1234),
            nopw(),
        ],
        vec![(R::T1, bits(5678))],
        vec![(R::T0, bits(4444))],
        Vec::new(),
        Vec::new(),
        1,
        None,
        4,
    );
}

#[test]
fn subi_negative_immediate() {
    run_case(
        &[
            ii(Opcode::SUBI, R::T0, R::T1, -1234),
            nopw(),
        ],
        vec![(R::T1, bits(5678))],
        vec![(R::T0, bits(6912))],
        Vec::new(),
        Vec::new(),
        1,
        None,
        4,
    );
}

#[test]
fn subi_negative_rs1() {
    run_case(
        &[
            ii(Opcode::SUBI, R::T0, R::T1, 1234),
            nopw(),
        ],
        vec![(R::T1, bits(-5678))],
        vec![(R::T0, bits(-6912))],
        Vec::new(),
        Vec::new(),
        1,
        None,
        4,
    );
}

#[test]
fn sw_success() {
    run_case(
        &[
            ii(Opcode::SW, R::T0, R::T1, 2),
            nopw(),
        ],
        vec![(R::T0, bits(0x1234_5678u32)), (R::T1, bits(1))],
        vec![],
        vec![0u8; 8],
        vec![0, 0, 0, 0x78, 0x56, 0x34, 0x12, 0],
        1,
        None,
        4,
    );
}

#[test]
fn sw_bad_access() {
    run_case(
        &[
            ii(Opcode::SW, R::T0, R::T1, 20),
            nopw(),
        ],
        vec![(R::T0, bits(0x1234_5678u32))],
        vec![],
        vec![0u8; 8],
        vec![0u8; 8],
        1,
        Some(ExitCode::BadMemoryAccess),
        0,
    );
}

#[test]
fn xori_positive_immediate() {
    run_case(
        &[
            ii(Opcode::XORI, R::T0, R::T1, 0b0111_1101_1010_0111u16 as i16),
            nopw(),
        ],
        vec![(R::T1, bits(0b0101_0011_0010_0011_1111_0100_0110_1011_u32))],
        vec![(R::T0, bits(0b0101_0011_0010_0011_1000_1001_1100_1100_u32))],
        Vec::new(),
        Vec::new(),
        1,
        None,
        4,
    );
}

#[test]
fn xori_negative_immediate() {
    run_case(
        &[
            ii(Opcode::XORI, R::T0, R::T1, 0b1111_1101_1010_0111u16 as i16),
            nopw(),
        ],
        vec![(R::T1, bits(0b0101_0011_0010_0011_1111_0100_0110_1011_u32))],
        vec![(R::T0, bits(0b1010_1100_1101_1100_0000_1001_1100_1100_u32))],
        Vec::new(),
        Vec::new(),
        1,
        None,
        4,
    );
}

#[test]
fn nop() {
    run_case(
        &[nopw(), nopw()],
        vec![],
        vec![],
        Vec::new(),
        Vec::new(),
        1,
        None,
        4,
    );
}

#[test]
fn halt() {
    run_case(
        &[ii(Opcode::HALT, R::ZERO, R::ZERO, 0), nopw()],
        vec![],
        vec![],
        Vec::new(),
        Vec::new(),
        1,
        Some(ExitCode::Halted),
        0,
    );
}

#[test]
fn call() {
    run_case(
        &[ii(Opcode::CALL, R::ZERO, R::ZERO, 0), nopw()],
        vec![],
        vec![],
        Vec::new(),
        Vec::new(),
        1,
        None,
        4,
    );
}

#[test]
fn zero_register_read_only() {
    run_case(
        &[ii(Opcode::COPY, R::ZERO, R::T0, 0), nopw()],
        vec![(R::T0, bits(0x1234_5678u32))],
        vec![(R::ZERO, 0)],
        Vec::new(),
        Vec::new(),
        1,
        None,
        4,
    );
}
