//! The processor: its exit conditions, the pluggable floating-point
//! unit, and the shell that drives single-instruction ticks over an
//! instruction buffer and a storage.

pub mod logic;

use vstd::prelude::*;

use crate::endian::{le_value, read_le};
use crate::instructions::{register_index, register_value, RegisterId};
use crate::memory::{range_bytes, write_bytes, StorageMut};
use crate::processor::logic::{reg_bits, reg_store, step_effect, Effect, TickResult};
use crate::register::Register;
use crate::{Address, Immediate, Word};

verus! {

/// The reasons a program stops. Every terminating execution ends in
/// exactly one of these.
#[derive(Clone, Copy, PartialEq, Eq, Structural, Debug)]
pub enum ExitCode {
    /// A HALT instruction was executed (normal shutdown).
    Halted,
    /// Attempted integer division by zero.
    DivisionByZero,
    /// Attempted to access main memory at an invalid address.
    BadMemoryAccess,
    /// A jump address was not aligned to word boundaries.
    BadAlignment,
    /// A jump address was out of instruction memory range.
    BadJump,
    /// An opcode or funct was not recognized.
    InvalidOpcode,
    /// The program counter is out of instruction memory range.
    BadProgramCounter,
}

/// The floating-point unit of the machine, operating on raw 32-bit
/// patterns. Floating-point arithmetic cannot be carried out in
/// verified code, so the embedding host supplies an implementation;
/// the execution core states nothing about the returned patterns.
pub trait FloatUnit {
    /// IEEE 754 single-precision addition on bit patterns.
    fn fadd(&self, a: u32, b: u32) -> u32;

    /// IEEE 754 single-precision subtraction on bit patterns.
    fn fsub(&self, a: u32, b: u32) -> u32;

    /// IEEE 754 single-precision multiplication on bit patterns.
    fn fmul(&self, a: u32, b: u32) -> u32;

    /// IEEE 754 single-precision division on bit patterns.
    fn fdiv(&self, a: u32, b: u32) -> u32;

    /// The nearest single-precision value of a signed integer, as bits.
    fn itof(&self, value: i32) -> u32;

    /// A single-precision pattern converted to a signed integer: the
    /// saturating cast for finite values, `i32::MIN` for NaN and both
    /// infinities.
    fn ftoi(&self, bits: u32) -> i32;
}


/// The `ZERO` register reads as zero after any sequence of
/// instructions: a fresh machine is well formed, every tick preserves
/// well-formedness, and a well-formed machine holds zero in register 0.
pub proof fn lemma_zero_register(p: &Processor)
    requires
        p.wf(),
    ensures
        p.regs().len() == 32,
        p.regs()[0] == 0,
{
}

/// Every terminating execution ends in one of the seven named exit
/// codes: the set is closed.
pub proof fn lemma_exit_codes(c: ExitCode)
    ensures
        c == ExitCode::Halted || c == ExitCode::DivisionByZero || c == ExitCode::BadMemoryAccess
            || c == ExitCode::BadAlignment || c == ExitCode::BadJump || c == ExitCode::InvalidOpcode
            || c == ExitCode::BadProgramCounter,
{
}

/// The byte address of the instruction following `pc` within an
/// instruction buffer of `instr_len` bytes: four past `pc`, wrapping to
/// 0 when that falls at or beyond the end of the buffer.
pub open spec fn next_pc(pc: u32, instr_len: u32) -> u32 {
    let stepped = vstd::wrapping::u32_specs::wrapping_add(pc, 4);
    if stepped < instr_len {
        stepped
    } else {
        0
    }
}

/// The verdict of the jump rules on a branch target: a target off word
/// alignment stops with [`ExitCode::BadAlignment`], one at or past the
/// end of the instruction buffer with [`ExitCode::BadJump`]; alignment
/// is checked first.
pub open spec fn jump_outcome(target: u32, instr_len: nat) -> Option<ExitCode> {
    if target % 4 != 0 {
        Some(ExitCode::BadAlignment)
    } else if target >= instr_len {
        Some(ExitCode::BadJump)
    } else {
        None
    }
}

fn get_next_pc(pc: u32, instr_len: u32) -> (r: u32)
    ensures
        r == next_pc(pc, instr_len),
{
    let stepped = pc.wrapping_add(4);
    if stepped < instr_len {
        stepped
    } else {
        0
    }
}

/// Converts an instruction offset (counted in words) into the
/// byte-offset immediate a branch instruction carries.
pub fn jmp_addr_i16(offset: i16) -> (r: Immediate)
    requires
        -0x2000 <= offset < 0x2000,
    ensures
        r == offset * 4,
{
    offset * 4
}

/// Converts an instruction offset (counted in words) into the
/// byte-offset address a jump instruction carries.
pub fn jmp_addr_i32(offset: i32) -> (r: Address)
    requires
        -0x2000_0000 <= offset < 0x2000_0000,
    ensures
        r == offset * 4,
{
    offset * 4
}

/// Encodes a sequence of instruction words as the little-endian byte
/// buffer the processor executes.
pub fn instructions_from_words(words: &[Word]) -> (r: Vec<u8>)
    requires
        words@.len() * 4 <= usize::MAX,
    ensures
        r@.len() == words@.len() * 4,
        forall|i: int|
            0 <= i < words@.len() ==> r@.subrange(4 * i, 4 * i + 4) =~= crate::endian::le_bytes(
                words@[i] as nat,
                4,
            ),
{
    let n = words.len();
    let mut out: Vec<u8> = Vec::new();
    out.resize(n * 4, 0u8);
    let mut i: usize = 0;
    while i < n
        invariant
            i <= n,
            n == words@.len(),
            n * 4 <= usize::MAX,
            out@.len() == n * 4,
            forall|j: int|
                0 <= j < i ==> out@.subrange(4 * j, 4 * j + 4) =~= crate::endian::le_bytes(
                    words@[j] as nat,
                    4,
                ),
        decreases n - i,
    {
        let ghost prev = out@;
        crate::endian::write_le(&mut out, i * 4, 4, words[i]);
        proof {
            assert(forall|j: int|
                0 <= j < i ==> #[trigger] out@.subrange(4 * j, 4 * j + 4) =~= prev.subrange(
                    4 * j,
                    4 * j + 4,
                ));
        }
        i = i + 1;
    }
    out
}

/// The machine: a file of 32 register cells, a program counter, and the
/// terminal state once execution has stopped. Registers and program
/// counter start at zero.
pub struct Processor {
    registers: Vec<Register>,
    program_counter: u32,
    state: Option<ExitCode>,
}

/// The full single-tick contract as a relation between the machine and
/// storage before and after one [`Processor::tick`], with its returned
/// state: the conjunction of that method's postconditions.
pub open spec fn tick_rel<S: StorageMut>(
    instructions: Seq<u8>,
    p0: Processor,
    s0: S,
    p1: Processor,
    s1: S,
    r: Option<ExitCode>,
) -> bool {
    &&& p1.wf()
    &&& r == p1.exit_state()
    &&& (p0.exit_state() is Some ==> r == p0.exit_state() && p1 == p0 && s1 == s0)
    &&& (p0.exit_state() is None && p0.pc() + 4 > instructions.len() ==> r == Some(
        ExitCode::BadProgramCounter,
    ) && p1.regs() == p0.regs() && p1.pc() == p0.pc() && s1 == s0)
    &&& (p0.exit_state() is None && p0.pc() + 4 <= instructions.len() ==> ({
        let w = le_value(instructions.subrange(p0.pc() as int, p0.pc() + 4)) as u32;
        let regs0 = p0.regs();
        let pc0 = p0.pc();
        let len32 = instructions.len() as u32;
        match step_effect(w, pc0, regs0) {
            Effect::Quiet => r is None && p1.regs() == regs0 && p1.pc() == next_pc(pc0, len32)
                && s1 == s0,
            Effect::SetReg { rd, value } => r is None && p1.regs() == reg_store(regs0, rd, value)
                && p1.pc() == next_pc(pc0, len32) && s1 == s0,
            Effect::SetRegPair { rd, value, rm_value } => r is None && p1.regs() == reg_store(
                reg_store(regs0, rd, value),
                30,
                rm_value,
            ) && p1.pc() == next_pc(pc0, len32) && s1 == s0,
            Effect::Load { rd, address, size } => s1 == s0 && if s0.range_ok(address, size) {
                r is None && p1.regs() == reg_store(
                    regs0,
                    rd,
                    le_value(range_bytes(s0.mem(), address, size)) as u32,
                ) && p1.pc() == next_pc(pc0, len32)
            } else {
                r == Some(ExitCode::BadMemoryAccess) && p1.regs() == regs0 && p1.pc() == pc0
            },
            Effect::Store { address, size, value } => p1.regs() == regs0 && s1.len() == s0.len()
                && s1.commits() == s0.commits() && (forall|a: u32, l: u32|
                s1.range_ok(a, l) == s0.range_ok(a, l)) && (r == Some(ExitCode::BadMemoryAccess)
                || r is None) && (r == Some(ExitCode::BadMemoryAccess) ==> !s0.range_ok(
                address,
                size,
            ) && s1.mem() == s0.mem() && p1.pc() == pc0) && (s0.commits() && s0.range_ok(
                address,
                size,
            ) ==> r is None) && (r is None ==> p1.pc() == next_pc(pc0, len32) && (s1.mem()
                == write_bytes(s0.mem(), address, size, value) || s1.mem() == s0.mem())) && (r
                is None && s0.commits() ==> s1.mem() == write_bytes(s0.mem(), address, size, value)),
            Effect::Branch { target, link } => s1 == s0 && match jump_outcome(
                target,
                instructions.len(),
            ) {
                Some(code) => r == Some(code) && p1.regs() == regs0 && p1.pc() == pc0,
                None => r is None && p1.pc() == target && p1.regs() == (if link {
                    reg_store(regs0, 31, next_pc(pc0, len32))
                } else {
                    regs0
                }),
            },
            Effect::Stop { code } => r == Some(code) && p1.regs() == regs0 && p1.pc() == pc0 && s1
                == s0,
            Effect::Flop { rd } => r is None && s1 == s0 && p1.pc() == next_pc(pc0, len32) && (
            forall|i: int| 0 <= i < 32 && i != rd ==> p1.regs()[i] == regs0[i]) && (rd == 0
                ==> p1.regs() == regs0),
        }
    }))
}

/// The machine and storage reached from a starting pair by exactly `k`
/// ticks, none of which started on a stopped machine.
pub open spec fn reaches<S: StorageMut>(
    instructions: Seq<u8>,
    p0: Processor,
    s0: S,
    k: nat,
    p1: Processor,
    s1: S,
) -> bool
    decreases k,
{
    if k == 0 {
        p1 == p0 && s1 == s0
    } else {
        exists|pm: Processor, sm: S, r: Option<ExitCode>|
            #[trigger] tick_rel(instructions, pm, sm, p1, s1, r) && reaches(
                instructions,
                p0,
                s0,
                (k - 1) as nat,
                pm,
                sm,
            ) && pm.exit_state() is None
    }
}

impl Processor {
    /// The machine is well formed: it has exactly 32 registers and the
    /// `ZERO` register holds 0. Every constructor establishes this and
    /// every method preserves it.
    pub closed spec fn wf(&self) -> bool {
        self.registers@.len() == 32 && reg_bits(self.registers@)[0] == 0
    }

    /// The raw patterns of the 32 registers.
    pub closed spec fn regs(&self) -> Seq<u32> {
        reg_bits(self.registers@)
    }

    /// The current program counter.
    pub closed spec fn pc(&self) -> u32 {
        self.program_counter
    }

    /// The terminal state: the exit code execution stopped with, if it
    /// has stopped.
    pub closed spec fn exit_state(&self) -> Option<ExitCode> {
        self.state
    }

    /// A fresh machine: all registers zero, program counter zero, not
    /// stopped.
    pub fn new() -> (r: Processor)
        ensures
            r.wf(),
            r.regs() =~= Seq::new(32, |i: int| 0u32),
            r.pc() == 0,
            r.exit_state() is None,
    {
        let mut registers: Vec<Register> = Vec::new();
        registers.resize(32, Register::from_bits(0));
        let r = Processor { registers, program_counter: 0, state: None };
        proof {
            assert(r.regs() =~= Seq::new(32, |i: int| 0u32));
        }
        r
    }

    /// The register cells, in encoding order.
    pub fn registers(&self) -> (r: &Vec<Register>)
        requires
            self.wf(),
        ensures
            r@.len() == 32,
            forall|i: int| 0 <= i < 32 ==> r@[i].bits() == self.regs()[i],
    {
        &self.registers
    }

    /// The cell of one register.
    pub fn register(&self, id: RegisterId) -> (r: Register)
        requires
            self.wf(),
        ensures
            r.bits() == self.regs()[register_value(id) as int],
    {
        self.registers[register_index(id)]
    }

    /// Stores a value into one register; a write to `ZERO` has no
    /// effect.
    pub fn set_register(&mut self, id: RegisterId, value: Register)
        requires
            old(self).wf(),
        ensures
            final(self).wf(),
            final(self).regs() == reg_store(old(self).regs(), register_value(id), value.bits()),
            final(self).pc() == old(self).pc(),
            final(self).exit_state() == old(self).exit_state(),
    {
        let id_val = register_index(id);
        if id_val != 0 {
            self.registers[id_val] = value;
        }
        proof {
            assert(reg_bits(self.registers@) =~= reg_store(
                reg_bits(old(self).registers@),
                register_value(id) as u32,
                value.bits(),
            ));
        }
    }

    /// The current program counter.
    pub fn program_counter(&self) -> (r: u32)
        ensures
            r == self.pc(),
    {
        self.program_counter
    }

    /// The terminal state, if execution has stopped.
    pub fn state(&self) -> (r: Option<ExitCode>)
        ensures
            r == self.exit_state(),
    {
        self.state
    }

    /// Whether execution has stopped.
    pub fn is_stopped(&self) -> (r: bool)
        ensures
            r == (self.exit_state() is Some),
    {
        self.state.is_some()
    }

    /// Executes one instruction. A stopped machine stays stopped and
    /// returns its terminal code unchanged. Otherwise: a program counter
    /// within four bytes of the end of the buffer terminates with
    /// [`ExitCode::BadProgramCounter`]; else the word at the program
    /// counter is read little-endian, executed per
    /// [`logic::step_effect`], and the program counter advances — by the
    /// wrap rule of [`next_pc`] on fall-through, to the target on a
    /// jump admitted by [`jump_outcome`] (linking the return address
    /// into `RA` first when asked), or the machine terminates with the
    /// jump rules' verdict or the instruction's stop code.
    #[verifier::rlimit(100)]
    #[verifier::spinoff_prover]
    pub fn tick<S: StorageMut, F: FloatUnit>(
        &mut self,
        instructions: &[u8],
        storage: &mut S,
        funit: &F,
    ) -> (r: Option<ExitCode>)
        requires
            old(self).wf(),
            instructions@.len() <= u32::MAX,
        ensures
            final(self).wf(),
            r == final(self).exit_state(),
            old(self).exit_state() is Some ==> r == old(self).exit_state() && *final(self) == *old(self) && *final(storage) == *old(storage),
            old(self).exit_state() is None && old(self).pc() + 4 > instructions@.len() ==> r
                == Some(ExitCode::BadProgramCounter) && final(self).regs() == old(self).regs()
                && final(self).pc() == old(self).pc() && *final(storage) == *old(storage),
            old(self).exit_state() is None && old(self).pc() + 4 <= instructions@.len() ==> ({
                let w = le_value(
                    instructions@.subrange(old(self).pc() as int, old(self).pc() + 4),
                ) as u32;
                let regs0 = old(self).regs();
                let pc0 = old(self).pc();
                let len32 = instructions@.len() as u32;
                match step_effect(w, pc0, regs0) {
                    Effect::Quiet => r is None && final(self).regs() == regs0 && final(self).pc()
                        == next_pc(pc0, len32) && *final(storage) == *old(storage),
                    Effect::SetReg { rd, value } => r is None && final(self).regs() == reg_store(
                        regs0,
                        rd,
                        value,
                    ) && final(self).pc() == next_pc(pc0, len32) && *final(storage) == *old(storage),
                    Effect::SetRegPair { rd, value, rm_value } => r is None && final(self).regs()
                        == reg_store(reg_store(regs0, rd, value), 30, rm_value) && final(self).pc()
                        == next_pc(pc0, len32) && *final(storage) == *old(storage),
                    Effect::Load { rd, address, size } => *final(storage) == *old(storage) && if
                        old(storage).range_ok(address, size) {
                        r is None && final(self).regs() == reg_store(
                            regs0,
                            rd,
                            le_value(range_bytes(old(storage).mem(), address, size)) as u32,
                        ) && final(self).pc() == next_pc(pc0, len32)
                    } else {
                        r == Some(ExitCode::BadMemoryAccess) && final(self).regs() == regs0
                            && final(self).pc() == pc0
                    },
                    Effect::Store { address, size, value } => final(self).regs() == regs0 && final(storage).len() == old(storage).len() && final(storage).commits() == old(storage).commits() && (forall|a: u32, l: u32|
                        final(storage).range_ok(a, l) == old(storage).range_ok(a, l)) && (r
                        == Some(ExitCode::BadMemoryAccess) || r is None) && (r == Some(
                        ExitCode::BadMemoryAccess,
                    ) ==> !old(storage).range_ok(address, size) && final(storage).mem() == old(storage).mem() && final(self).pc() == pc0) && (old(storage).commits() && old(storage).range_ok(address, size) ==> r is None) && (r is None ==> final(self).pc()
                        == next_pc(pc0, len32) && (final(storage).mem() == write_bytes(
                        old(storage).mem(),
                        address,
                        size,
                        value,
                    ) || final(storage).mem() == old(storage).mem())) && (r is None && old(storage).commits() ==> final(storage).mem() == write_bytes(
                        old(storage).mem(),
                        address,
                        size,
                        value,
                    )),
                    Effect::Branch { target, link } => *final(storage) == *old(storage) && match
                        jump_outcome(target, instructions@.len()) {
                        Some(code) => r == Some(code) && final(self).regs() == regs0 && final(self).pc() == pc0,
                        None => r is None && final(self).pc() == target && final(self).regs() == (
                        if link {
                            reg_store(regs0, 31, next_pc(pc0, len32))
                        } else {
                            regs0
                        }),
                    },
                    Effect::Stop { code } => r == Some(code) && final(self).regs() == regs0
                        && final(self).pc() == pc0 && *final(storage) == *old(storage),
                    Effect::Flop { rd } => r is None && *final(storage) == *old(storage) && final(self).pc() == next_pc(pc0, len32) && (forall|i: int|
                        0 <= i < 32 && i != rd ==> final(self).regs()[i] == regs0[i]) && (rd == 0
                        ==> final(self).regs() == regs0),
                }
            }),
    {
        if self.state.is_some() {
            return self.state;
        }
        let instr_len = instructions.len();
        let pc = self.program_counter;
        if instr_len < 4 || pc > (instr_len as u32) - 4 {
            self.state = Some(ExitCode::BadProgramCounter);
            return self.state;
        }
        let word = read_le(instructions, pc as usize, 4);
        let mut registers: Vec<Register> = Vec::new();
        std::mem::swap(&mut registers, &mut self.registers);
        let tick_result = logic::tick(&mut registers, storage, word, pc, funit);
        std::mem::swap(&mut registers, &mut self.registers);
        match tick_result {
            TickResult::Next => {
                self.program_counter = get_next_pc(pc, instr_len as u32);
            },
            TickResult::Jump(new_pc, link) => {
                if new_pc % 4 != 0 {
                    self.state = Some(ExitCode::BadAlignment);
                } else if new_pc >= instr_len as u32 {
                    self.state = Some(ExitCode::BadJump);
                } else {
                    if link {
                        let ra = get_next_pc(pc, instr_len as u32);
                        let mut registers: Vec<Register> = Vec::new();
                        std::mem::swap(&mut registers, &mut self.registers);
                        logic::write_link(&mut registers, ra);
                        std::mem::swap(&mut registers, &mut self.registers);
                    }
                    self.program_counter = new_pc;
                }
            },
            TickResult::Stop(exit_code) => {
                self.state = Some(exit_code);
            },
        }
        self.state
    }

    /// Drives [`Processor::tick`] until the machine stops, for at most
    /// `max_ticks` instructions, and returns the terminal state: the
    /// code the machine stopped with, or `None` when the budget ran out
    /// first. On a machine that has already stopped it returns the
    /// terminal code and changes nothing.
    pub fn run<S: StorageMut, F: FloatUnit>(
        &mut self,
        instructions: &[u8],
        storage: &mut S,
        funit: &F,
        max_ticks: u64,
    ) -> (r: Option<ExitCode>)
        requires
            old(self).wf(),
            instructions@.len() <= u32::MAX,
        ensures
            final(self).wf(),
            r == final(self).exit_state(),
            old(self).exit_state() is Some ==> old(self).exit_state() == r && *final(self) == *old(
                self,
            ) && *final(storage) == *old(storage),
            old(self).exit_state() is None ==> exists|k: nat|
                k <= max_ticks && #[trigger] reaches(
                    instructions@,
                    *old(self),
                    *old(storage),
                    k,
                    *final(self),
                    *final(storage),
                ) && (r is None ==> k == max_ticks),
    {
        if self.state.is_some() {
            return self.state;
        }
        let mut ticks_left: u64 = max_ticks;
        let mut last: Option<ExitCode> = self.state;
        let ghost mut k: nat = 0;
        proof {
            assert(reaches(instructions@, *old(self), *old(storage), 0, *self, *storage));
        }
        while ticks_left > 0
            invariant
                self.wf(),
                instructions@.len() <= u32::MAX,
                last == self.exit_state(),
                old(self).exit_state() is None,
                k + ticks_left == max_ticks,
                reaches(instructions@, *old(self), *old(storage), k, *self, *storage),
                self.exit_state() is None,
            decreases ticks_left,
        {
            let ghost pm = *self;
            let ghost sm = *storage;
            last = self.tick(instructions, storage, funit);
            proof {
                assert(tick_rel(instructions@, pm, sm, *self, *storage, last));
                k = k + 1nat;
                assert(reaches(instructions@, *old(self), *old(storage), k, *self, *storage));
            }
            if last.is_some() {
                return last;
            }
            ticks_left = ticks_left - 1;
        }
        last
    }

    /// Zeroes every register and the program counter and clears the
    /// terminal state.
    pub fn reset(&mut self)
        ensures
            final(self).wf(),
            final(self).regs() =~= Seq::new(32, |i: int| 0u32),
            final(self).pc() == 0,
            final(self).exit_state() is None,
    {
        let mut registers: Vec<Register> = Vec::new();
        registers.resize(32, Register::from_bits(0));
        self.registers = registers;
        self.program_counter = 0;
        self.state = None;
        proof {
            assert(self.regs() =~= Seq::new(32, |i: int| 0u32));
        }
    }
}

} // verus!
