//! Whole-program executions on the processor shell: small programs run
//! to completion and the registers and memory they leave behind are
//! checked.

use vcpu::constants::WORD_BYTES;
use vcpu::instructions::{
    make_alu_instruction, make_i_instruction, make_j_instruction, AluFunct, Opcode,
    RegisterId as R,
};
use vcpu::memory::{Memory, Storage};
use vcpu::processor::{instructions_from_words, jmp_addr_i16, jmp_addr_i32, ExitCode, FloatUnit,
    Processor};

struct Fpu;

impl FloatUnit for Fpu {
    fn fadd(&self, a: u32, b: u32) -> u32 {
        (f32::from_bits(a) + f32::from_bits(b)).to_bits()
    }
    fn fsub(&self, a: u32, b: u32) -> u32 {
        (f32::from_bits(a) - f32::from_bits(b)).to_bits()
    }
    fn fmul(&self, a: u32, b: u32) -> u32 {
        (f32::from_bits(a) * f32::from_bits(b)).to_bits()
    }
    fn fdiv(&self, a: u32, b: u32) -> u32 {
        (f32::from_bits(a) / f32::from_bits(b)).to_bits()
    }
    fn itof(&self, value: i32) -> u32 {
        (value as f32).to_bits()
    }
    fn ftoi(&self, bits: u32) -> i32 {
        let f = f32::from_bits(bits);
        if f.is_finite() {
            f as i32
        } else {
            i32::MIN
        }
    }
}

fn test_instructions_me(mem_size: u32, instructions: &[u8], expected_code: ExitCode) -> (Processor, Memory) {
    let mut processor = Processor::new();
    let mut memory = Memory::new(mem_size);
    let exit_code = processor.run(instructions, &mut memory, &Fpu, 1_000_000);
    assert_eq!(exit_code, Some(expected_code));
    (processor, memory)
}

fn test_instructions(instructions: &[u8]) -> (Processor, Memory) {
    test_instructions_me(1024, instructions, ExitCode::Halted)
}

#[test]
fn wrapping_arithmetic() {
    let i = -20;

    let a = 20u32;
    let b = i as u32;
    let c = a.wrapping_add(b);

    assert_eq!(c, 0u32);
}

#[test]
fn instructions_halt() {
    let instructions = instructions_from_words(&[make_i_instruction(
        Opcode::HALT,
        R::ZERO,
        R::ZERO,
        0,
    )]);

    test_instructions(&instructions[..]);
}

#[test]
fn instructions_add() {
    let instructions = instructions_from_words(&[
        make_i_instruction(Opcode::LI, R::T0, R::ZERO, 42),
        make_i_instruction(Opcode::LI, R::T1, R::ZERO, 64),
        make_alu_instruction(AluFunct::ADD, R::T2, R::T0, R::T1),
        make_i_instruction(Opcode::HALT, R::ZERO, R::ZERO, 0),
    ]);

    let (processor, _) = test_instructions(&instructions[..]);

    assert_eq!(processor.register(R::T2).i(), 106);
}

#[test]
fn instructions_loop() {
    let iterations = 32i32;

    let instructions = instructions_from_words(&[
        make_i_instruction(Opcode::SLTI, R::T2, R::T0, iterations as i16),
        make_i_instruction(Opcode::BEZ, R::ZERO, R::T2, jmp_addr_i16(5)),
        make_i_instruction(Opcode::SLLI, R::T1, R::T0, 2),
        make_i_instruction(Opcode::SW, R::T0, R::T1, 0),
        make_i_instruction(Opcode::ADDI, R::T0, R::T0, 1),
        make_j_instruction(Opcode::JMP, jmp_addr_i32(-5)),
        make_i_instruction(Opcode::HALT, R::ZERO, R::ZERO, 0),
    ]);

    let (_, storage) = test_instructions(&instructions[..]);

    for i in 0..iterations {
        let value = storage.read_word(i as u32 * WORD_BYTES).unwrap() as i32;
        assert_eq!(value, i);
    }
}

#[test]
fn negative_immediate_value() {
    let instructions = instructions_from_words(&[
        make_i_instruction(Opcode::LI, R::T0, R::ZERO, 16),
        make_i_instruction(Opcode::ADDI, R::T0, R::T0, -4),
        make_i_instruction(Opcode::HALT, R::ZERO, R::ZERO, 0),
    ]);

    let (processor, _) = test_instructions(&instructions[..]);

    assert_eq!(12i32, processor.register(R::T0).i());
}

#[test]
fn instruction_sw_negative_offset() {
    let instructions = instructions_from_words(&[
        make_i_instruction(Opcode::LI, R::T0, R::ZERO, 23),
        make_i_instruction(Opcode::LI, R::T1, R::ZERO, 16),
        make_i_instruction(Opcode::SW, R::T0, R::T1, -4),
        make_i_instruction(Opcode::HALT, R::ZERO, R::ZERO, 0),
    ]);

    let (_, storage) = test_instructions_me(64, &instructions[..], ExitCode::Halted);

    assert_eq!(23, storage.read_word(12).unwrap());
}

#[test]
fn truncation_in_store_instruction() {
    let instructions = instructions_from_words(&[
        make_i_instruction(Opcode::FLIP, R::T0, R::T0, 0),
        make_i_instruction(Opcode::SB, R::T0, R::ZERO, 0),
        make_i_instruction(Opcode::HALT, R::ZERO, R::ZERO, 0),
    ]);

    let (processor, storage) = test_instructions(&instructions[..]);

    assert_eq!(0xFFFF_FFFF, processor.register(R::T0).u());
    assert_eq!(0xFF, storage.data()[0]);
}

#[test]
fn run_stays_stopped() {
    let instructions = instructions_from_words(&[make_i_instruction(
        Opcode::HALT,
        R::ZERO,
        R::ZERO,
        0,
    )]);
    let mut processor = Processor::new();
    let mut memory = Memory::new(16);
    assert_eq!(
        processor.run(&instructions, &mut memory, &Fpu, 100),
        Some(ExitCode::Halted)
    );
    assert_eq!(
        processor.run(&instructions, &mut memory, &Fpu, 100),
        Some(ExitCode::Halted)
    );
    assert_eq!(processor.program_counter(), 0);
}

#[test]
fn run_budget_exhausted_keeps_running_state() {
    // a single NOP wraps around forever
    let instructions = instructions_from_words(&[make_i_instruction(
        Opcode::NOP,
        R::ZERO,
        R::ZERO,
        0,
    )]);
    let mut processor = Processor::new();
    let mut memory = Memory::new(0);
    assert_eq!(processor.run(&instructions, &mut memory, &Fpu, 1000), None);
    assert!(!processor.is_stopped());
}

#[test]
fn empty_program_is_a_bad_program_counter() {
    let mut processor = Processor::new();
    let mut memory = Memory::new(16);
    assert_eq!(
        processor.tick(&[], &mut memory, &Fpu),
        Some(ExitCode::BadProgramCounter)
    );
    assert_eq!(processor.state(), Some(ExitCode::BadProgramCounter));
}

#[test]
fn reset_clears_everything() {
    let instructions = instructions_from_words(&[
        make_i_instruction(Opcode::LI, R::T0, R::ZERO, 7),
        make_i_instruction(Opcode::HALT, R::ZERO, R::ZERO, 0),
    ]);
    let mut processor = Processor::new();
    let mut memory = Memory::new(16);
    processor.run(&instructions, &mut memory, &Fpu, 100);
    processor.reset();
    assert_eq!(processor.program_counter(), 0);
    assert_eq!(processor.state(), None);
    for i in 0..32 {
        assert_eq!(processor.registers()[i].u(), 0);
    }
}
