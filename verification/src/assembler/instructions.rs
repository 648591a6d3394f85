//! The instructions pass and the lowering pass. Pass one reads each
//! mnemonic with its operands, emitting either finished instruction
//! words or pending branch, jump and instruction-address loads, and
//! binds each `label:` to the index of the next emitted instruction.
//! Pass two walks the pending sequence and resolves every label
//! reference: a label in a branch or jump position stands for the
//! relative byte distance `(label_index - current_index) * 4`, which
//! must fit the destination field; an instruction-address load receives
//! the label's absolute byte address, half at a time.

use vstd::prelude::*;

use crate::assembler::int_util::{process_int, process_uint, spec_int_bits};
use crate::assembler::labels::{spec_get, LabelMap};
use crate::assembler::lexer::{token_wf, upper_of, upper_range, Directive, Token, TokenKind};
use crate::assembler::source_map::{SourceMap, SourceMapItem};
use crate::assembler::{AssembleError, Error, Span};
use crate::endian::le_bytes;
use crate::instructions::{
    alu_funct_value, encode_i, encode_j, encode_r, flop_funct_value, make_alu_instruction,
    make_flop_instruction, make_i_instruction, make_j_instruction, opcode_value, register_value,
    AluFunct, FlopFunct, Opcode, RegisterId,
};
use crate::numbers::{i16_from_bits, u16_bits, u32_bits};
use crate::processor::logic::wrap32;
use crate::Word;

verus! {

/// The instructions section may emit at most this many instructions.
pub const INSTR_MAX: u32 = 0x3FFF_FFFE;

/// Where a branch or jump goes: a literal byte offset, or a label to be
/// resolved in pass two.
#[derive(Clone, Copy, PartialEq, Eq, Structural, Debug)]
pub enum JumpTarget<T> {
    /// A literal byte offset, embedded as given.
    Address(T),
    /// A label; the span names it in the source text.
    Label(Span),
}

/// One instruction as pass one leaves it: finished, or pending label
/// resolution.
#[derive(Clone, Copy, PartialEq, Eq, Structural, Debug)]
pub enum ParsedInstruction {
    /// A fully encoded instruction word.
    Complete(Word),
    /// A branch whose target is still to be resolved.
    Branch { opcode: Opcode, rs1: RegisterId, target: JumpTarget<i16> },
    /// A jump whose target is still to be resolved.
    Jump { opcode: Opcode, target: JumpTarget<i32> },
    /// One half of a load of a label's absolute instruction address:
    /// `SLO` for the low half, `SHI` (with `upper`) for the high half.
    LoadInstructionAddress { label: Span, rd: RegisterId, upper: bool },
}

/// Pushes one parsed instruction, preserving everything already
/// emitted.
fn push_one(input: &[u8], instr: &mut Vec<ParsedInstruction>, pi: ParsedInstruction)
    requires
        parsed_wf(pi, input@.len()),
    ensures
        final(instr)@.len() == old(instr)@.len() + 1,
        final(instr)@ == old(instr)@ + seq![pi],
        forall|i: int| 0 <= i < old(instr)@.len() ==> #[trigger] final(instr)@[i] == old(instr)@[i],
        final(instr)@[old(instr)@.len() as int] == pi,
        forall|i: int|
            old(instr)@.len() <= i < final(instr)@.len() ==> parsed_wf(
                #[trigger] final(instr)@[i],
                input@.len(),
            ),
{
    instr.push(pi);
    proof {
        assert(instr@ =~= old(instr)@ + seq![pi]);
    }
}

/// The shapes a mnemonic can take, each carrying what pass one encodes
/// from it.
pub enum Mnemonic {
    Alu(AluFunct),
    Flop(FlopFunct),
    ISigned(Opcode),
    IUnsigned(Opcode),
    LoadStore(Opcode),
    DualReg(Opcode),
    LoadImm(Opcode),
    SetImm(Opcode),
    Empty(Opcode),
    Branch(Opcode),
    JumpReg(Opcode),
    Jump(Opcode),
    Push,
    Pop,
    Lwi,
    Lda,
    Lia,
}

/// The mnemonic an upper-cased identifier names, if any: the defining
/// table of mnemonic spellings, one entry per mnemonic.
pub open spec fn spec_classify(u: Seq<u8>) -> Option<Mnemonic> {
    if u.len() == 2 && u[0] == 76 && u[1] == 73 {
        Some(Mnemonic::LoadImm(Opcode::LI))
    } else if u.len() == 2 && u[0] == 76 && u[1] == 66 {
        Some(Mnemonic::LoadStore(Opcode::LB))
    } else if u.len() == 2 && u[0] == 76 && u[1] == 72 {
        Some(Mnemonic::LoadStore(Opcode::LH))
    } else if u.len() == 2 && u[0] == 76 && u[1] == 87 {
        Some(Mnemonic::LoadStore(Opcode::LW))
    } else if u.len() == 2 && u[0] == 83 && u[1] == 66 {
        Some(Mnemonic::LoadStore(Opcode::SB))
    } else if u.len() == 2 && u[0] == 83 && u[1] == 72 {
        Some(Mnemonic::LoadStore(Opcode::SH))
    } else if u.len() == 2 && u[0] == 83 && u[1] == 87 {
        Some(Mnemonic::LoadStore(Opcode::SW))
    } else if u.len() == 2 && u[0] == 79 && u[1] == 82 {
        Some(Mnemonic::Alu(AluFunct::OR))
    } else if u.len() == 2 && u[0] == 74 && u[1] == 76 {
        Some(Mnemonic::Jump(Opcode::JL))
    } else if u.len() == 2 && u[0] == 74 && u[1] == 82 {
        Some(Mnemonic::JumpReg(Opcode::JR))
    } else if u.len() == 3 && u[0] == 65 && u[1] == 68 && u[2] == 68 {
        Some(Mnemonic::Alu(AluFunct::ADD))
    } else if u.len() == 3 && u[0] == 83 && u[1] == 85 && u[2] == 66 {
        Some(Mnemonic::Alu(AluFunct::SUB))
    } else if u.len() == 3 && u[0] == 77 && u[1] == 85 && u[2] == 76 {
        Some(Mnemonic::Alu(AluFunct::MUL))
    } else if u.len() == 3 && u[0] == 68 && u[1] == 73 && u[2] == 86 {
        Some(Mnemonic::Alu(AluFunct::DIV))
    } else if u.len() == 3 && u[0] == 65 && u[1] == 78 && u[2] == 68 {
        Some(Mnemonic::Alu(AluFunct::AND))
    } else if u.len() == 3 && u[0] == 88 && u[1] == 79 && u[2] == 82 {
        Some(Mnemonic::Alu(AluFunct::XOR))
    } else if u.len() == 3 && u[0] == 83 && u[1] == 76 && u[2] == 76 {
        Some(Mnemonic::Alu(AluFunct::SLL))
    } else if u.len() == 3 && u[0] == 83 && u[1] == 82 && u[2] == 76 {
        Some(Mnemonic::Alu(AluFunct::SRL))
    } else if u.len() == 3 && u[0] == 83 && u[1] == 82 && u[2] == 65 {
        Some(Mnemonic::Alu(AluFunct::SRA))
    } else if u.len() == 3 && u[0] == 83 && u[1] == 69 && u[2] == 81 {
        Some(Mnemonic::Alu(AluFunct::SEQ))
    } else if u.len() == 3 && u[0] == 83 && u[1] == 78 && u[2] == 69 {
        Some(Mnemonic::Alu(AluFunct::SNE))
    } else if u.len() == 3 && u[0] == 83 && u[1] == 76 && u[2] == 84 {
        Some(Mnemonic::Alu(AluFunct::SLT))
    } else if u.len() == 3 && u[0] == 83 && u[1] == 71 && u[2] == 84 {
        Some(Mnemonic::Alu(AluFunct::SGT))
    } else if u.len() == 3 && u[0] == 83 && u[1] == 76 && u[2] == 69 {
        Some(Mnemonic::Alu(AluFunct::SLE))
    } else if u.len() == 3 && u[0] == 83 && u[1] == 71 && u[2] == 69 {
        Some(Mnemonic::Alu(AluFunct::SGE))
    } else if u.len() == 3 && u[0] == 76 && u[1] == 72 && u[2] == 73 {
        Some(Mnemonic::LoadImm(Opcode::LHI))
    } else if u.len() == 3 && u[0] == 83 && u[1] == 76 && u[2] == 79 {
        Some(Mnemonic::SetImm(Opcode::SLO))
    } else if u.len() == 3 && u[0] == 83 && u[1] == 72 && u[2] == 73 {
        Some(Mnemonic::SetImm(Opcode::SHI))
    } else if u.len() == 3 && u[0] == 78 && u[1] == 79 && u[2] == 80 {
        Some(Mnemonic::Empty(Opcode::NOP))
    } else if u.len() == 3 && u[0] == 66 && u[1] == 69 && u[2] == 90 {
        Some(Mnemonic::Branch(Opcode::BEZ))
    } else if u.len() == 3 && u[0] == 66 && u[1] == 78 && u[2] == 90 {
        Some(Mnemonic::Branch(Opcode::BNZ))
    } else if u.len() == 3 && u[0] == 74 && u[1] == 77 && u[2] == 80 {
        Some(Mnemonic::Jump(Opcode::JMP))
    } else if u.len() == 3 && u[0] == 74 && u[1] == 76 && u[2] == 82 {
        Some(Mnemonic::JumpReg(Opcode::JLR))
    } else if u.len() == 3 && u[0] == 79 && u[1] == 82 && u[2] == 73 {
        Some(Mnemonic::ISigned(Opcode::ORI))
    } else if u.len() == 3 && u[0] == 80 && u[1] == 79 && u[2] == 80 {
        Some(Mnemonic::Pop)
    } else if u.len() == 3 && u[0] == 76 && u[1] == 87 && u[2] == 73 {
        Some(Mnemonic::Lwi)
    } else if u.len() == 3 && u[0] == 76 && u[1] == 68 && u[2] == 65 {
        Some(Mnemonic::Lda)
    } else if u.len() == 3 && u[0] == 76 && u[1] == 73 && u[2] == 65 {
        Some(Mnemonic::Lia)
    } else if u.len() == 4 && u[0] == 72 && u[1] == 65 && u[2] == 76 && u[3] == 84 {
        Some(Mnemonic::Empty(Opcode::HALT))
    } else if u.len() == 4 && u[0] == 67 && u[1] == 65 && u[2] == 76 && u[3] == 76 {
        Some(Mnemonic::Empty(Opcode::CALL))
    } else if u.len() == 4 && u[0] == 67 && u[1] == 79 && u[2] == 80 && u[3] == 89 {
        Some(Mnemonic::DualReg(Opcode::COPY))
    } else if u.len() == 4 && u[0] == 70 && u[1] == 76 && u[2] == 73 && u[3] == 80 {
        Some(Mnemonic::DualReg(Opcode::FLIP))
    } else if u.len() == 4 && u[0] == 73 && u[1] == 84 && u[2] == 79 && u[3] == 70 {
        Some(Mnemonic::DualReg(Opcode::ITOF))
    } else if u.len() == 4 && u[0] == 70 && u[1] == 84 && u[2] == 79 && u[3] == 73 {
        Some(Mnemonic::DualReg(Opcode::FTOI))
    } else if u.len() == 4 && u[0] == 65 && u[1] == 68 && u[2] == 68 && u[3] == 73 {
        Some(Mnemonic::ISigned(Opcode::ADDI))
    } else if u.len() == 4 && u[0] == 83 && u[1] == 85 && u[2] == 66 && u[3] == 73 {
        Some(Mnemonic::ISigned(Opcode::SUBI))
    } else if u.len() == 4 && u[0] == 77 && u[1] == 85 && u[2] == 76 && u[3] == 73 {
        Some(Mnemonic::ISigned(Opcode::MULI))
    } else if u.len() == 4 && u[0] == 68 && u[1] == 73 && u[2] == 86 && u[3] == 73 {
        Some(Mnemonic::ISigned(Opcode::DIVI))
    } else if u.len() == 4 && u[0] == 65 && u[1] == 78 && u[2] == 68 && u[3] == 73 {
        Some(Mnemonic::ISigned(Opcode::ANDI))
    } else if u.len() == 4 && u[0] == 88 && u[1] == 79 && u[2] == 82 && u[3] == 73 {
        Some(Mnemonic::ISigned(Opcode::XORI))
    } else if u.len() == 4 && u[0] == 83 && u[1] == 76 && u[2] == 76 && u[3] == 73 {
        Some(Mnemonic::ISigned(Opcode::SLLI))
    } else if u.len() == 4 && u[0] == 83 && u[1] == 82 && u[2] == 76 && u[3] == 73 {
        Some(Mnemonic::ISigned(Opcode::SRLI))
    } else if u.len() == 4 && u[0] == 83 && u[1] == 82 && u[2] == 65 && u[3] == 73 {
        Some(Mnemonic::ISigned(Opcode::SRAI))
    } else if u.len() == 4 && u[0] == 83 && u[1] == 69 && u[2] == 81 && u[3] == 73 {
        Some(Mnemonic::ISigned(Opcode::SEQI))
    } else if u.len() == 4 && u[0] == 83 && u[1] == 78 && u[2] == 69 && u[3] == 73 {
        Some(Mnemonic::ISigned(Opcode::SNEI))
    } else if u.len() == 4 && u[0] == 83 && u[1] == 76 && u[2] == 84 && u[3] == 73 {
        Some(Mnemonic::ISigned(Opcode::SLTI))
    } else if u.len() == 4 && u[0] == 83 && u[1] == 71 && u[2] == 84 && u[3] == 73 {
        Some(Mnemonic::ISigned(Opcode::SGTI))
    } else if u.len() == 4 && u[0] == 83 && u[1] == 76 && u[2] == 69 && u[3] == 73 {
        Some(Mnemonic::ISigned(Opcode::SLEI))
    } else if u.len() == 4 && u[0] == 83 && u[1] == 71 && u[2] == 69 && u[3] == 73 {
        Some(Mnemonic::ISigned(Opcode::SGEI))
    } else if u.len() == 4 && u[0] == 83 && u[1] == 76 && u[2] == 84 && u[3] == 85 {
        Some(Mnemonic::Alu(AluFunct::SLTU))
    } else if u.len() == 4 && u[0] == 83 && u[1] == 71 && u[2] == 84 && u[3] == 85 {
        Some(Mnemonic::Alu(AluFunct::SGTU))
    } else if u.len() == 4 && u[0] == 83 && u[1] == 76 && u[2] == 69 && u[3] == 85 {
        Some(Mnemonic::Alu(AluFunct::SLEU))
    } else if u.len() == 4 && u[0] == 83 && u[1] == 71 && u[2] == 69 && u[3] == 85 {
        Some(Mnemonic::Alu(AluFunct::SGEU))
    } else if u.len() == 4 && u[0] == 70 && u[1] == 65 && u[2] == 68 && u[3] == 68 {
        Some(Mnemonic::Flop(FlopFunct::FADD))
    } else if u.len() == 4 && u[0] == 70 && u[1] == 83 && u[2] == 85 && u[3] == 66 {
        Some(Mnemonic::Flop(FlopFunct::FSUB))
    } else if u.len() == 4 && u[0] == 70 && u[1] == 77 && u[2] == 85 && u[3] == 76 {
        Some(Mnemonic::Flop(FlopFunct::FMUL))
    } else if u.len() == 4 && u[0] == 70 && u[1] == 68 && u[2] == 73 && u[3] == 86 {
        Some(Mnemonic::Flop(FlopFunct::FDIV))
    } else if u.len() == 4 && u[0] == 80 && u[1] == 85 && u[2] == 83 && u[3] == 72 {
        Some(Mnemonic::Push)
    } else if u.len() == 5 && u[0] == 83 && u[1] == 76 && u[2] == 84 && u[3] == 85 && u[4] == 73 {
        Some(Mnemonic::IUnsigned(Opcode::SLTUI))
    } else if u.len() == 5 && u[0] == 83 && u[1] == 71 && u[2] == 84 && u[3] == 85 && u[4] == 73 {
        Some(Mnemonic::IUnsigned(Opcode::SGTUI))
    } else if u.len() == 5 && u[0] == 83 && u[1] == 76 && u[2] == 69 && u[3] == 85 && u[4] == 73 {
        Some(Mnemonic::IUnsigned(Opcode::SLEUI))
    } else if u.len() == 5 && u[0] == 83 && u[1] == 71 && u[2] == 69 && u[3] == 85 && u[4] == 73 {
        Some(Mnemonic::IUnsigned(Opcode::SGEUI))
    } else {
        None
    }
}

/// The register operand at `pos`, and the position after it.
pub open spec fn spec_reg_at(tokens: Seq<Token>, pos: int) -> Option<(int, RegisterId)> {
    if 0 <= pos < tokens.len() {
        match tokens[pos].kind {
            TokenKind::Register(id) => Some((pos + 1, id)),
            _ => None,
        }
    } else {
        None
    }
}

/// The comma at `pos`, and the position after it.
pub open spec fn spec_comma_at(tokens: Seq<Token>, pos: int) -> Option<int> {
    if 0 <= pos < tokens.len() && tokens[pos].kind == TokenKind::Comma {
        Some(pos + 1)
    } else {
        None
    }
}

/// The signed 16-bit immediate at `pos`: the low half of the pattern
/// [`spec_int_bits`] fixes for the literal.
pub open spec fn spec_imm16_at(input: Seq<u8>, tokens: Seq<Token>, pos: int) -> Option<
    (int, i16),
> {
    if 0 <= pos < tokens.len() && tokens[pos].kind is Int {
        match spec_int_bits(input, tokens[pos].kind, 16) {
            Ok(bits) => Some((pos + 1, crate::numbers::i16_bits((bits % 0x1_0000) as u16))),
            Err(_) => None,
        }
    } else {
        None
    }
}

/// The unsigned 16-bit immediate at `pos`, reinterpreted as the 16-bit
/// pattern of the instruction field.
pub open spec fn spec_uimm16_at(input: Seq<u8>, tokens: Seq<Token>, pos: int) -> Option<
    (int, i16),
> {
    if 0 <= pos < tokens.len() && tokens[pos].kind is Int {
        match crate::assembler::int_util::spec_uint(input, tokens[pos].kind, 0xFFFF) {
            Some(v) => Some((pos + 1, crate::numbers::i16_bits(v as u16))),
            None => None,
        }
    } else {
        None
    }
}

/// The 32-bit pattern of the signed literal at `pos`.
pub open spec fn spec_bits32_at(input: Seq<u8>, tokens: Seq<Token>, pos: int) -> Option<
    (int, u32),
> {
    if 0 <= pos < tokens.len() && tokens[pos].kind is Int {
        match spec_int_bits(input, tokens[pos].kind, 32) {
            Ok(bits) => Some((pos + 1, bits)),
            Err(_) => None,
        }
    } else {
        None
    }
}

/// The two instructions loading a full 32-bit pattern: `SLO` with its
/// low half, `SHI` with its high half.
pub open spec fn spec_wide_load(rd: RegisterId, bits: u32) -> Seq<ParsedInstruction> {
    seq![
        ParsedInstruction::Complete(
            encode_i(
                opcode_value(Opcode::SLO),
                register_value(rd),
                0,
                (bits % 0x1_0000) as u16,
            ),
        ),
        ParsedInstruction::Complete(
            encode_i(
                opcode_value(Opcode::SHI),
                register_value(rd),
                0,
                (bits / 0x1_0000) as u16,
            ),
        ),
    ]
}

/// The mnemonic an upper-cased identifier names, if any: exactly
/// [`spec_classify`].
fn classify(u: &[u8]) -> (r: Option<Mnemonic>)
    ensures
        r == spec_classify(u@),
{
    let n = u.len();
    if n == 2 {
        return match (u[0], u[1]) {
            (76, 73) => Some(Mnemonic::LoadImm(Opcode::LI)),  // LI
            (76, 66) => Some(Mnemonic::LoadStore(Opcode::LB)),  // LB
            (76, 72) => Some(Mnemonic::LoadStore(Opcode::LH)),  // LH
            (76, 87) => Some(Mnemonic::LoadStore(Opcode::LW)),  // LW
            (83, 66) => Some(Mnemonic::LoadStore(Opcode::SB)),  // SB
            (83, 72) => Some(Mnemonic::LoadStore(Opcode::SH)),  // SH
            (83, 87) => Some(Mnemonic::LoadStore(Opcode::SW)),  // SW
            (79, 82) => Some(Mnemonic::Alu(AluFunct::OR)),  // OR
            (74, 76) => Some(Mnemonic::Jump(Opcode::JL)),  // JL
            (74, 82) => Some(Mnemonic::JumpReg(Opcode::JR)),  // JR
            _ => None,
        };
    }
    if n == 3 {
        return match (u[0], u[1], u[2]) {
            (65, 68, 68) => Some(Mnemonic::Alu(AluFunct::ADD)),  // ADD
            (83, 85, 66) => Some(Mnemonic::Alu(AluFunct::SUB)),  // SUB
            (77, 85, 76) => Some(Mnemonic::Alu(AluFunct::MUL)),  // MUL
            (68, 73, 86) => Some(Mnemonic::Alu(AluFunct::DIV)),  // DIV
            (65, 78, 68) => Some(Mnemonic::Alu(AluFunct::AND)),  // AND
            (88, 79, 82) => Some(Mnemonic::Alu(AluFunct::XOR)),  // XOR
            (83, 76, 76) => Some(Mnemonic::Alu(AluFunct::SLL)),  // SLL
            (83, 82, 76) => Some(Mnemonic::Alu(AluFunct::SRL)),  // SRL
            (83, 82, 65) => Some(Mnemonic::Alu(AluFunct::SRA)),  // SRA
            (83, 69, 81) => Some(Mnemonic::Alu(AluFunct::SEQ)),  // SEQ
            (83, 78, 69) => Some(Mnemonic::Alu(AluFunct::SNE)),  // SNE
            (83, 76, 84) => Some(Mnemonic::Alu(AluFunct::SLT)),  // SLT
            (83, 71, 84) => Some(Mnemonic::Alu(AluFunct::SGT)),  // SGT
            (83, 76, 69) => Some(Mnemonic::Alu(AluFunct::SLE)),  // SLE
            (83, 71, 69) => Some(Mnemonic::Alu(AluFunct::SGE)),  // SGE
            (76, 72, 73) => Some(Mnemonic::LoadImm(Opcode::LHI)),  // LHI
            (83, 76, 79) => Some(Mnemonic::SetImm(Opcode::SLO)),  // SLO
            (83, 72, 73) => Some(Mnemonic::SetImm(Opcode::SHI)),  // SHI
            (78, 79, 80) => Some(Mnemonic::Empty(Opcode::NOP)),  // NOP
            (66, 69, 90) => Some(Mnemonic::Branch(Opcode::BEZ)),  // BEZ
            (66, 78, 90) => Some(Mnemonic::Branch(Opcode::BNZ)),  // BNZ
            (74, 77, 80) => Some(Mnemonic::Jump(Opcode::JMP)),  // JMP
            (74, 76, 82) => Some(Mnemonic::JumpReg(Opcode::JLR)),  // JLR
            (79, 82, 73) => Some(Mnemonic::ISigned(Opcode::ORI)),  // ORI
            (80, 79, 80) => Some(Mnemonic::Pop),  // POP
            (76, 87, 73) => Some(Mnemonic::Lwi),  // LWI
            (76, 68, 65) => Some(Mnemonic::Lda),  // LDA
            (76, 73, 65) => Some(Mnemonic::Lia),  // LIA
            _ => None,
        };
    }
    if n == 4 {
        return match (u[0], u[1], u[2], u[3]) {
            (72, 65, 76, 84) => Some(Mnemonic::Empty(Opcode::HALT)),  // HALT
            (67, 65, 76, 76) => Some(Mnemonic::Empty(Opcode::CALL)),  // CALL
            (67, 79, 80, 89) => Some(Mnemonic::DualReg(Opcode::COPY)),  // COPY
            (70, 76, 73, 80) => Some(Mnemonic::DualReg(Opcode::FLIP)),  // FLIP
            (73, 84, 79, 70) => Some(Mnemonic::DualReg(Opcode::ITOF)),  // ITOF
            (70, 84, 79, 73) => Some(Mnemonic::DualReg(Opcode::FTOI)),  // FTOI
            (65, 68, 68, 73) => Some(Mnemonic::ISigned(Opcode::ADDI)),  // ADDI
            (83, 85, 66, 73) => Some(Mnemonic::ISigned(Opcode::SUBI)),  // SUBI
            (77, 85, 76, 73) => Some(Mnemonic::ISigned(Opcode::MULI)),  // MULI
            (68, 73, 86, 73) => Some(Mnemonic::ISigned(Opcode::DIVI)),  // DIVI
            (65, 78, 68, 73) => Some(Mnemonic::ISigned(Opcode::ANDI)),  // ANDI
            (88, 79, 82, 73) => Some(Mnemonic::ISigned(Opcode::XORI)),  // XORI
            (83, 76, 76, 73) => Some(Mnemonic::ISigned(Opcode::SLLI)),  // SLLI
            (83, 82, 76, 73) => Some(Mnemonic::ISigned(Opcode::SRLI)),  // SRLI
            (83, 82, 65, 73) => Some(Mnemonic::ISigned(Opcode::SRAI)),  // SRAI
            (83, 69, 81, 73) => Some(Mnemonic::ISigned(Opcode::SEQI)),  // SEQI
            (83, 78, 69, 73) => Some(Mnemonic::ISigned(Opcode::SNEI)),  // SNEI
            (83, 76, 84, 73) => Some(Mnemonic::ISigned(Opcode::SLTI)),  // SLTI
            (83, 71, 84, 73) => Some(Mnemonic::ISigned(Opcode::SGTI)),  // SGTI
            (83, 76, 69, 73) => Some(Mnemonic::ISigned(Opcode::SLEI)),  // SLEI
            (83, 71, 69, 73) => Some(Mnemonic::ISigned(Opcode::SGEI)),  // SGEI
            (83, 76, 84, 85) => Some(Mnemonic::Alu(AluFunct::SLTU)),  // SLTU
            (83, 71, 84, 85) => Some(Mnemonic::Alu(AluFunct::SGTU)),  // SGTU
            (83, 76, 69, 85) => Some(Mnemonic::Alu(AluFunct::SLEU)),  // SLEU
            (83, 71, 69, 85) => Some(Mnemonic::Alu(AluFunct::SGEU)),  // SGEU
            (70, 65, 68, 68) => Some(Mnemonic::Flop(FlopFunct::FADD)),  // FADD
            (70, 83, 85, 66) => Some(Mnemonic::Flop(FlopFunct::FSUB)),  // FSUB
            (70, 77, 85, 76) => Some(Mnemonic::Flop(FlopFunct::FMUL)),  // FMUL
            (70, 68, 73, 86) => Some(Mnemonic::Flop(FlopFunct::FDIV)),  // FDIV
            (80, 85, 83, 72) => Some(Mnemonic::Push),  // PUSH
            _ => None,
        };
    }
    if n == 5 {
        return match (u[0], u[1], u[2], u[3], u[4]) {
            (83, 76, 84, 85, 73) => Some(Mnemonic::IUnsigned(Opcode::SLTUI)),  // SLTUI
            (83, 71, 84, 85, 73) => Some(Mnemonic::IUnsigned(Opcode::SGTUI)),  // SGTUI
            (83, 76, 69, 85, 73) => Some(Mnemonic::IUnsigned(Opcode::SLEUI)),  // SLEUI
            (83, 71, 69, 85, 73) => Some(Mnemonic::IUnsigned(Opcode::SGEUI)),  // SGEUI
            _ => None,
        };
    }
    None
}


/// Three register operands separated by commas, and the position after
/// them.
pub open spec fn spec_regs3_at(tokens: Seq<Token>, pos: int) -> Option<
    (int, RegisterId, RegisterId, RegisterId),
> {
    match spec_reg_at(tokens, pos) {
        None => None,
        Some((p1, rd)) => match spec_comma_at(tokens, p1) {
            None => None,
            Some(p2) => match spec_reg_at(tokens, p2) {
                None => None,
                Some((p3, rs1)) => match spec_comma_at(tokens, p3) {
                    None => None,
                    Some(p4) => match spec_reg_at(tokens, p4) {
                        None => None,
                        Some((p5, rs2)) => Some((p5, rd, rs1, rs2)),
                    },
                },
            },
        },
    }
}

/// Two register operands separated by a comma, and the position after
/// them.
pub open spec fn spec_regs2_at(tokens: Seq<Token>, pos: int) -> Option<
    (int, RegisterId, RegisterId),
> {
    match spec_reg_at(tokens, pos) {
        None => None,
        Some((p1, rd)) => match spec_comma_at(tokens, p1) {
            None => None,
            Some(p2) => match spec_reg_at(tokens, p2) {
                None => None,
                Some((p3, rs1)) => Some((p3, rd, rs1)),
            },
        },
    }
}

/// What one mnemonic with its operands emits, read from `tokens[pos]`:
/// the position after its last operand, and the one or two parsed
/// instructions it produces, exactly per the shapes of the mnemonic
/// table. `None` where the tokens do not follow the mnemonic's shape, a
/// literal does not fit its field, or an `LDA` names an unbound data
/// label.
pub open spec fn spec_step_regs3(
    tokens: Seq<Token>,
    pos: int,
    word: u32,
) -> Option<(int, Seq<ParsedInstruction>)> {
    match spec_regs3_at(tokens, pos) {
        None => None,
        Some((p, rd, rs1, rs2)) => Some((p, seq![ParsedInstruction::Complete(word)])),
    }
}

/// An R-format shape: three registers encoded with the given opcode and
/// function code.
pub open spec fn spec_step_r(
    tokens: Seq<Token>,
    pos: int,
    oc: Opcode,
    funct: u32,
) -> Option<(int, Seq<ParsedInstruction>)> {
    match spec_regs3_at(tokens, pos) {
        None => None,
        Some((p, rd, rs1, rs2)) => Some(
            (
                p,
                seq![
                    ParsedInstruction::Complete(
                        encode_r(
                            opcode_value(oc),
                            register_value(rd),
                            register_value(rs1),
                            register_value(rs2),
                            funct,
                        ),
                    ),
                ],
            ),
        ),
    }
}

/// An I-format shape with two registers and an immediate; `signed`
/// selects the immediate's parsing policy.
pub open spec fn spec_step_i(
    input: Seq<u8>,
    tokens: Seq<Token>,
    pos: int,
    oc: Opcode,
    signed: bool,
) -> Option<(int, Seq<ParsedInstruction>)> {
    match spec_regs2_at(tokens, pos) {
        None => None,
        Some((p2, rd, rs1)) => match spec_comma_at(tokens, p2) {
            None => None,
            Some(p3) => {
                let imm = if signed {
                    spec_imm16_at(input, tokens, p3)
                } else {
                    spec_uimm16_at(input, tokens, p3)
                };
                match imm {
                    None => None,
                    Some((p4, imm)) => Some(
                        (
                            p4,
                            seq![
                                ParsedInstruction::Complete(
                                    encode_i(
                                        opcode_value(oc),
                                        register_value(rd),
                                        register_value(rs1),
                                        u16_bits(imm),
                                    ),
                                ),
                            ],
                        ),
                    ),
                }
            },
        },
    }
}

/// The load/store shape `rd, imm(rs1)`.
pub open spec fn spec_step_loadstore(
    input: Seq<u8>,
    tokens: Seq<Token>,
    pos: int,
    oc: Opcode,
) -> Option<(int, Seq<ParsedInstruction>)> {
    match spec_reg_at(tokens, pos) {
        None => None,
        Some((p1, rd)) => match spec_comma_at(tokens, p1) {
            None => None,
            Some(p2) => match spec_imm16_at(input, tokens, p2) {
                None => None,
                Some((p3, imm)) => {
                    if p3 < tokens.len() && tokens[p3].kind == TokenKind::LParen {
                        match spec_reg_at(tokens, p3 + 1) {
                            None => None,
                            Some((p4, rs1)) => {
                                if p4 < tokens.len() && tokens[p4].kind == TokenKind::RParen {
                                    Some(
                                        (
                                            p4 + 1,
                                            seq![
                                                ParsedInstruction::Complete(
                                                    encode_i(
                                                        opcode_value(oc),
                                                        register_value(rd),
                                                        register_value(rs1),
                                                        u16_bits(imm),
                                                    ),
                                                ),
                                            ],
                                        ),
                                    )
                                } else {
                                    None
                                }
                            },
                        }
                    } else {
                        None
                    }
                },
            },
        },
    }
}

/// The two-register shape `rd, rs1` with a zero immediate.
pub open spec fn spec_step_dualreg(tokens: Seq<Token>, pos: int, oc: Opcode) -> Option<
    (int, Seq<ParsedInstruction>),
> {
    match spec_regs2_at(tokens, pos) {
        None => None,
        Some((p, rd, rs1)) => Some(
            (
                p,
                seq![
                    ParsedInstruction::Complete(
                        encode_i(opcode_value(oc), register_value(rd), register_value(rs1), 0),
                    ),
                ],
            ),
        ),
    }
}

/// The one-register-and-immediate shape `rd, imm`; `signed` selects the
/// immediate's parsing policy.
pub open spec fn spec_step_reg_imm(
    input: Seq<u8>,
    tokens: Seq<Token>,
    pos: int,
    oc: Opcode,
    signed: bool,
) -> Option<(int, Seq<ParsedInstruction>)> {
    match spec_reg_at(tokens, pos) {
        None => None,
        Some((p1, rd)) => match spec_comma_at(tokens, p1) {
            None => None,
            Some(p2) => {
                let imm = if signed {
                    spec_imm16_at(input, tokens, p2)
                } else {
                    spec_uimm16_at(input, tokens, p2)
                };
                match imm {
                    None => None,
                    Some((p3, imm)) => Some(
                        (
                            p3,
                            seq![
                                ParsedInstruction::Complete(
                                    encode_i(
                                        opcode_value(oc),
                                        register_value(rd),
                                        0,
                                        u16_bits(imm),
                                    ),
                                ),
                            ],
                        ),
                    ),
                }
            },
        },
    }
}

/// The branch shape `rs1, target`.
pub open spec fn spec_step_branch(
    input: Seq<u8>,
    tokens: Seq<Token>,
    pos: int,
    oc: Opcode,
) -> Option<(int, Seq<ParsedInstruction>)> {
    match spec_reg_at(tokens, pos) {
        None => None,
        Some((p1, rs1)) => match spec_comma_at(tokens, p1) {
            None => None,
            Some(p2) => {
                if p2 >= tokens.len() {
                    None
                } else if tokens[p2].kind == TokenKind::Ident {
                    Some(
                        (
                            p2 + 1,
                            seq![
                                ParsedInstruction::Branch {
                                    opcode: oc,
                                    rs1,
                                    target: JumpTarget::Label(tokens[p2].span),
                                },
                            ],
                        ),
                    )
                } else if tokens[p2].kind is Int {
                    match spec_imm16_at(input, tokens, p2) {
                        None => None,
                        Some((p3, imm)) => Some(
                            (
                                p3,
                                seq![
                                    ParsedInstruction::Branch {
                                        opcode: oc,
                                        rs1,
                                        target: JumpTarget::Address(imm),
                                    },
                                ],
                            ),
                        ),
                    }
                } else {
                    None
                }
            },
        },
    }
}

/// The jump shape `target`.
pub open spec fn spec_step_jump(
    input: Seq<u8>,
    tokens: Seq<Token>,
    pos: int,
    oc: Opcode,
) -> Option<(int, Seq<ParsedInstruction>)> {
    if pos >= tokens.len() {
        None
    } else if tokens[pos].kind == TokenKind::Ident {
        Some(
            (
                pos + 1,
                seq![
                    ParsedInstruction::Jump {
                        opcode: oc,
                        target: JumpTarget::Label(tokens[pos].span),
                    },
                ],
            ),
        )
    } else if tokens[pos].kind is Int {
        match spec_bits32_at(input, tokens, pos) {
            None => None,
            Some((p2, bits)) => Some(
                (
                    p2,
                    seq![
                        ParsedInstruction::Jump {
                            opcode: oc,
                            target: JumpTarget::Address(crate::numbers::i32_bits(bits)),
                        },
                    ],
                ),
            ),
        }
    } else {
        None
    }
}

/// The stack shorthands `PUSH rs` and `POP rd`.
pub open spec fn spec_step_stack(tokens: Seq<Token>, pos: int, push: bool) -> Option<
    (int, Seq<ParsedInstruction>),
> {
    match spec_reg_at(tokens, pos) {
        None => None,
        Some((p1, reg)) => {
            if push {
                Some(
                    (
                        p1,
                        seq![
                            ParsedInstruction::Complete(
                                encode_i(
                                    opcode_value(Opcode::SW),
                                    register_value(reg),
                                    register_value(RegisterId::SP),
                                    u16_bits(-4i16),
                                ),
                            ),
                            ParsedInstruction::Complete(
                                encode_i(
                                    opcode_value(Opcode::SUBI),
                                    register_value(RegisterId::SP),
                                    register_value(RegisterId::SP),
                                    4,
                                ),
                            ),
                        ],
                    ),
                )
            } else {
                Some(
                    (
                        p1,
                        seq![
                            ParsedInstruction::Complete(
                                encode_i(
                                    opcode_value(Opcode::LW),
                                    register_value(reg),
                                    register_value(RegisterId::SP),
                                    0,
                                ),
                            ),
                            ParsedInstruction::Complete(
                                encode_i(
                                    opcode_value(Opcode::ADDI),
                                    register_value(RegisterId::SP),
                                    register_value(RegisterId::SP),
                                    4,
                                ),
                            ),
                        ],
                    ),
                )
            }
        },
    }
}

/// The wide-load shorthand `LWI rd, value`.
pub open spec fn spec_step_lwi(input: Seq<u8>, tokens: Seq<Token>, pos: int) -> Option<
    (int, Seq<ParsedInstruction>),
> {
    match spec_reg_at(tokens, pos) {
        None => None,
        Some((p1, rd)) => match spec_comma_at(tokens, p1) {
            None => None,
            Some(p2) => match spec_bits32_at(input, tokens, p2) {
                None => None,
                Some((p3, bits)) => Some((p3, spec_wide_load(rd, bits))),
            },
        },
    }
}

/// The data-address shorthand `LDA rd, label`.
pub open spec fn spec_step_lda(
    input: Seq<u8>,
    tokens: Seq<Token>,
    pos: int,
    data_labels: Seq<(Seq<u8>, u32)>,
    data_offset: u32,
) -> Option<(int, Seq<ParsedInstruction>)> {
    match spec_reg_at(tokens, pos) {
        None => None,
        Some((p1, rd)) => match spec_comma_at(tokens, p1) {
            None => None,
            Some(p2) => {
                if p2 < tokens.len() && tokens[p2].kind == TokenKind::Ident {
                    let lbl = input.subrange(
                        tokens[p2].span.start as int,
                        tokens[p2].span.end as int,
                    );
                    match spec_get(data_labels, lbl) {
                        None => None,
                        Some(a) => Some(
                            (
                                p2 + 1,
                                spec_wide_load(
                                    rd,
                                    vstd::wrapping::u32_specs::wrapping_add(a, data_offset),
                                ),
                            ),
                        ),
                    }
                } else {
                    None
                }
            },
        },
    }
}

/// The instruction-address shorthand `LIA rd, label`.
pub open spec fn spec_step_lia(tokens: Seq<Token>, pos: int) -> Option<
    (int, Seq<ParsedInstruction>),
> {
    match spec_reg_at(tokens, pos) {
        None => None,
        Some((p1, rd)) => match spec_comma_at(tokens, p1) {
            None => None,
            Some(p2) => {
                if p2 < tokens.len() && tokens[p2].kind == TokenKind::Ident {
                    Some(
                        (
                            p2 + 1,
                            seq![
                                ParsedInstruction::LoadInstructionAddress {
                                    label: tokens[p2].span,
                                    rd,
                                    upper: false,
                                },
                                ParsedInstruction::LoadInstructionAddress {
                                    label: tokens[p2].span,
                                    rd,
                                    upper: true,
                                },
                            ],
                        ),
                    )
                } else {
                    None
                }
            },
        },
    }
}

/// What one mnemonic with its operands emits, read from `tokens[pos]`:
/// the position after its last operand, and the one or two parsed
/// instructions it produces, shape by shape per the mnemonic table.
/// `None` where the tokens do not follow the mnemonic's shape, a
/// literal does not fit its field, or an `LDA` names an unbound data
/// label.
#[verifier::opaque]
pub open spec fn spec_instruction_step(
    input: Seq<u8>,
    tokens: Seq<Token>,
    pos: int,
    data_labels: Seq<(Seq<u8>, u32)>,
    data_offset: u32,
) -> Option<(int, Seq<ParsedInstruction>)> {
    if !(0 <= pos < tokens.len() && tokens[pos].kind == TokenKind::Ident) {
        None
    } else {
        let name = upper_of(
            input.subrange(tokens[pos].span.start as int, tokens[pos].span.end as int),
        );
        match spec_classify(name) {
            None => None,
            Some(m) => match m {
                Mnemonic::Alu(funct) => spec_step_r(
                    tokens,
                    pos + 1,
                    Opcode::ALU,
                    alu_funct_value(funct),
                ),
                Mnemonic::Flop(funct) => spec_step_r(
                    tokens,
                    pos + 1,
                    Opcode::FLOP,
                    flop_funct_value(funct),
                ),
                Mnemonic::ISigned(oc) => spec_step_i(input, tokens, pos + 1, oc, true),
                Mnemonic::IUnsigned(oc) => spec_step_i(input, tokens, pos + 1, oc, false),
                Mnemonic::LoadStore(oc) => spec_step_loadstore(input, tokens, pos + 1, oc),
                Mnemonic::DualReg(oc) => spec_step_dualreg(tokens, pos + 1, oc),
                Mnemonic::LoadImm(oc) => spec_step_reg_imm(input, tokens, pos + 1, oc, true),
                Mnemonic::SetImm(oc) => spec_step_reg_imm(input, tokens, pos + 1, oc, false),
                Mnemonic::Empty(oc) => Some(
                    (
                        pos + 1,
                        seq![
                            ParsedInstruction::Complete(encode_i(opcode_value(oc), 0, 0, 0)),
                        ],
                    ),
                ),
                Mnemonic::Branch(oc) => spec_step_branch(input, tokens, pos + 1, oc),
                Mnemonic::JumpReg(oc) => match spec_reg_at(tokens, pos + 1) {
                    None => None,
                    Some((p1, rs1)) => Some(
                        (
                            p1,
                            seq![
                                ParsedInstruction::Complete(
                                    encode_i(opcode_value(oc), 0, register_value(rs1), 0),
                                ),
                            ],
                        ),
                    ),
                },
                Mnemonic::Jump(oc) => spec_step_jump(input, tokens, pos + 1, oc),
                Mnemonic::Push => spec_step_stack(tokens, pos + 1, true),
                Mnemonic::Pop => spec_step_stack(tokens, pos + 1, false),
                Mnemonic::Lwi => spec_step_lwi(input, tokens, pos + 1),
                Mnemonic::Lda => spec_step_lda(input, tokens, pos + 1, data_labels, data_offset),
                Mnemonic::Lia => spec_step_lia(tokens, pos + 1),
            },
        }
    }
}

/// The dispatch of [`spec_instruction_step`]: at an identifier, the
/// step is the shape function of the identifier's mnemonic.
proof fn lemma_step_dispatch(
    input: Seq<u8>,
    tokens: Seq<Token>,
    pos: int,
    data_labels: Seq<(Seq<u8>, u32)>,
    data_offset: u32,
)
    ensures
        !(0 <= pos < tokens.len() && tokens[pos].kind == TokenKind::Ident)
            ==> spec_instruction_step(input, tokens, pos, data_labels, data_offset) is None,
        (0 <= pos < tokens.len() && tokens[pos].kind == TokenKind::Ident) ==> ({
            let name = upper_of(
                input.subrange(tokens[pos].span.start as int, tokens[pos].span.end as int),
            );
            match spec_classify(name) {
                None => spec_instruction_step(input, tokens, pos, data_labels, data_offset)
                    is None,
                Some(m) => spec_instruction_step(input, tokens, pos, data_labels, data_offset)
                    == (match m {
                    Mnemonic::Alu(funct) => spec_step_r(
                        tokens,
                        pos + 1,
                        Opcode::ALU,
                        alu_funct_value(funct),
                    ),
                    Mnemonic::Flop(funct) => spec_step_r(
                        tokens,
                        pos + 1,
                        Opcode::FLOP,
                        flop_funct_value(funct),
                    ),
                    Mnemonic::ISigned(oc) => spec_step_i(input, tokens, pos + 1, oc, true),
                    Mnemonic::IUnsigned(oc) => spec_step_i(input, tokens, pos + 1, oc, false),
                    Mnemonic::LoadStore(oc) => spec_step_loadstore(input, tokens, pos + 1, oc),
                    Mnemonic::DualReg(oc) => spec_step_dualreg(tokens, pos + 1, oc),
                    Mnemonic::LoadImm(oc) => spec_step_reg_imm(input, tokens, pos + 1, oc, true),
                    Mnemonic::SetImm(oc) => spec_step_reg_imm(input, tokens, pos + 1, oc, false),
                    Mnemonic::Empty(oc) => Some(
                        (
                            pos + 1,
                            seq![
                                ParsedInstruction::Complete(encode_i(opcode_value(oc), 0, 0, 0)),
                            ],
                        ),
                    ),
                    Mnemonic::Branch(oc) => spec_step_branch(input, tokens, pos + 1, oc),
                    Mnemonic::JumpReg(oc) => match spec_reg_at(tokens, pos + 1) {
                        None => None,
                        Some((p1, rs1)) => Some(
                            (
                                p1,
                                seq![
                                    ParsedInstruction::Complete(
                                        encode_i(opcode_value(oc), 0, register_value(rs1), 0),
                                    ),
                                ],
                            ),
                        ),
                    },
                    Mnemonic::Jump(oc) => spec_step_jump(input, tokens, pos + 1, oc),
                    Mnemonic::Push => spec_step_stack(tokens, pos + 1, true),
                    Mnemonic::Pop => spec_step_stack(tokens, pos + 1, false),
                    Mnemonic::Lwi => spec_step_lwi(input, tokens, pos + 1),
                    Mnemonic::Lda => spec_step_lda(
                        input,
                        tokens,
                        pos + 1,
                        data_labels,
                        data_offset,
                    ),
                    Mnemonic::Lia => spec_step_lia(tokens, pos + 1),
                }),
            }
        }),
{
    reveal(spec_instruction_step);
}

/// Reads the register token at the cursor and advances past it:
/// exactly [`spec_reg_at`].
fn expect_register(tokens: &Vec<Token>, pos: &mut usize) -> (r: Result<RegisterId, Error>)
    requires
        *old(pos) <= tokens@.len(),
    ensures
        *final(pos) <= tokens@.len(),
        *old(pos) <= *final(pos),
        r matches Ok(id) ==> spec_reg_at(tokens@, *old(pos) as int) == Some(
            (*final(pos) as int, id),
        ),
        r is Err ==> spec_reg_at(tokens@, *old(pos) as int) is None && *final(pos) == *old(pos),
{
    if *pos >= tokens.len() {
        return Err(
            Error {
                kind: AssembleError::Syntax,
                span: Span { start: 0, end: 0, line: 1, end_line: 1 },
            },
        );
    }
    let tok = tokens[*pos];
    match tok.kind {
        TokenKind::Register(id) => {
            *pos = *pos + 1;
            Ok(id)
        },
        _ => Err(Error { kind: AssembleError::Syntax, span: tok.span }),
    }
}

/// Reads the comma at the cursor and advances past it: exactly
/// [`spec_comma_at`].
fn expect_comma(tokens: &Vec<Token>, pos: &mut usize) -> (r: Result<(), Error>)
    requires
        *old(pos) <= tokens@.len(),
    ensures
        *final(pos) <= tokens@.len(),
        *old(pos) <= *final(pos),
        r is Ok ==> spec_comma_at(tokens@, *old(pos) as int) == Some(*final(pos) as int),
        r is Err ==> spec_comma_at(tokens@, *old(pos) as int) is None && *final(pos) == *old(pos),
{
    if *pos >= tokens.len() {
        return Err(
            Error {
                kind: AssembleError::Syntax,
                span: Span { start: 0, end: 0, line: 1, end_line: 1 },
            },
        );
    }
    let tok = tokens[*pos];
    if tok.kind == TokenKind::Comma {
        *pos = *pos + 1;
        Ok(())
    } else {
        Err(Error { kind: AssembleError::Syntax, span: tok.span })
    }
}

/// Reads the integer token at the cursor and advances past it.
fn expect_int(input: &[u8], tokens: &Vec<Token>, pos: &mut usize) -> (r: Result<Token, Error>)
    requires
        forall|j: int| 0 <= j < tokens@.len() ==> token_wf(#[trigger] tokens@[j], input@.len()),
        *old(pos) <= tokens@.len(),
    ensures
        *final(pos) <= tokens@.len(),
        *old(pos) <= *final(pos),
        r matches Ok(t) ==> t.kind is Int && token_wf(t, input@.len()) && *final(pos) == *old(
            pos,
        ) + 1 && t == tokens@[*old(pos) as int],
        r is Err ==> *final(pos) == *old(pos) && !(*old(pos) < tokens@.len() && tokens@[*old(
            pos,
        ) as int].kind is Int),
{
    if *pos >= tokens.len() {
        return Err(
            Error {
                kind: AssembleError::Syntax,
                span: Span { start: 0, end: 0, line: 1, end_line: 1 },
            },
        );
    }
    let tok = tokens[*pos];
    match tok.kind {
        TokenKind::Int { .. } => {
            *pos = *pos + 1;
            proof {
                assert(tokens@[*old(pos) as int] == tok);
            }
            Ok(tok)
        },
        _ => Err(Error { kind: AssembleError::Syntax, span: tok.span }),
    }
}

/// Parses an immediate in a signed 16-bit position: exactly
/// [`spec_imm16_at`].
fn expect_imm16(input: &[u8], tokens: &Vec<Token>, pos: &mut usize) -> (r: Result<i16, Error>)
    requires
        forall|j: int| 0 <= j < tokens@.len() ==> token_wf(#[trigger] tokens@[j], input@.len()),
        *old(pos) <= tokens@.len(),
    ensures
        *final(pos) <= tokens@.len(),
        *old(pos) <= *final(pos),
        r matches Ok(imm) ==> spec_imm16_at(input@, tokens@, *old(pos) as int) == Some(
            (*final(pos) as int, imm),
        ),
        r is Err ==> spec_imm16_at(input@, tokens@, *old(pos) as int) is None,
{
    let tok = match expect_int(input, tokens, pos) {
        Ok(t) => t,
        Err(e) => {
            return Err(e);
        },
    };
    let bits = match process_int(input, &tok, 16) {
        Ok(b) => b,
        Err(e) => {
            return Err(e);
        },
    };
    Ok(i16_from_bits((bits % 0x1_0000) as u16))
}

/// Parses an immediate in an unsigned 16-bit position: exactly
/// [`spec_uimm16_at`].
fn expect_uimm16(input: &[u8], tokens: &Vec<Token>, pos: &mut usize) -> (r: Result<i16, Error>)
    requires
        forall|j: int| 0 <= j < tokens@.len() ==> token_wf(#[trigger] tokens@[j], input@.len()),
        *old(pos) <= tokens@.len(),
    ensures
        *final(pos) <= tokens@.len(),
        *old(pos) <= *final(pos),
        r matches Ok(imm) ==> spec_uimm16_at(input@, tokens@, *old(pos) as int) == Some(
            (*final(pos) as int, imm),
        ),
        r is Err ==> spec_uimm16_at(input@, tokens@, *old(pos) as int) is None,
{
    let tok = match expect_int(input, tokens, pos) {
        Ok(t) => t,
        Err(e) => {
            return Err(e);
        },
    };
    let v = match process_uint(input, &tok, 0xFFFF) {
        Ok(v) => v,
        Err(e) => {
            return Err(e);
        },
    };
    Ok(i16_from_bits(v as u16))
}

/// Parses a signed literal in a full-word position, yielding its 32-bit
/// pattern: exactly [`spec_bits32_at`].
fn expect_bits32(input: &[u8], tokens: &Vec<Token>, pos: &mut usize) -> (r: Result<u32, Error>)
    requires
        forall|j: int| 0 <= j < tokens@.len() ==> token_wf(#[trigger] tokens@[j], input@.len()),
        *old(pos) <= tokens@.len(),
    ensures
        *final(pos) <= tokens@.len(),
        *old(pos) <= *final(pos),
        r matches Ok(bits) ==> spec_bits32_at(input@, tokens@, *old(pos) as int) == Some(
            (*final(pos) as int, bits),
        ),
        r is Err ==> spec_bits32_at(input@, tokens@, *old(pos) as int) is None,
{
    let tok = match expect_int(input, tokens, pos) {
        Ok(t) => t,
        Err(e) => {
            return Err(e);
        },
    };
    match process_int(input, &tok, 32) {
        Ok(b) => Ok(b),
        Err(e) => Err(e),
    }
}

/// Reads `rd, rs1, rs2`: exactly [`spec_regs3_at`].
fn parse_regs3(tokens: &Vec<Token>, pos: &mut usize) -> (r: Result<
    (RegisterId, RegisterId, RegisterId),
    Error,
>)
    requires
        *old(pos) <= tokens@.len(),
    ensures
        *final(pos) <= tokens@.len(),
        *old(pos) <= *final(pos),
        r matches Ok(t) ==> spec_regs3_at(tokens@, *old(pos) as int) == Some(
            (*final(pos) as int, t.0, t.1, t.2),
        ),
        r is Err ==> spec_regs3_at(tokens@, *old(pos) as int) is None,
{
    let rd = match expect_register(tokens, pos) {
        Ok(v) => v,
        Err(e) => {
            return Err(e);
        },
    };
    match expect_comma(tokens, pos) {
        Ok(_) => {},
        Err(e) => {
            return Err(e);
        },
    }
    let rs1 = match expect_register(tokens, pos) {
        Ok(v) => v,
        Err(e) => {
            return Err(e);
        },
    };
    match expect_comma(tokens, pos) {
        Ok(_) => {},
        Err(e) => {
            return Err(e);
        },
    }
    let rs2 = match expect_register(tokens, pos) {
        Ok(v) => v,
        Err(e) => {
            return Err(e);
        },
    };
    Ok((rd, rs1, rs2))
}

/// Reads `rd, rs1`: exactly [`spec_regs2_at`].
fn parse_regs2(tokens: &Vec<Token>, pos: &mut usize) -> (r: Result<(RegisterId, RegisterId), Error>)
    requires
        *old(pos) <= tokens@.len(),
    ensures
        *final(pos) <= tokens@.len(),
        *old(pos) <= *final(pos),
        r matches Ok(t) ==> spec_regs2_at(tokens@, *old(pos) as int) == Some(
            (*final(pos) as int, t.0, t.1),
        ),
        r is Err ==> spec_regs2_at(tokens@, *old(pos) as int) is None,
{
    let rd = match expect_register(tokens, pos) {
        Ok(v) => v,
        Err(e) => {
            return Err(e);
        },
    };
    match expect_comma(tokens, pos) {
        Ok(_) => {},
        Err(e) => {
            return Err(e);
        },
    }
    let rs1 = match expect_register(tokens, pos) {
        Ok(v) => v,
        Err(e) => {
            return Err(e);
        },
    };
    Ok((rd, rs1))
}

/// Reads one mnemonic with its operands from the cursor, pushing what
/// it emits — one instruction, or two for a shorthand — and returns how
/// many were pushed. The shapes are fixed by the mnemonic table of
/// [`classify`]; a data label in an `LDA` is resolved here against
/// `data_labels` plus `data_offset`.
#[verifier::rlimit(100)]
#[verifier::spinoff_prover]
pub fn process_instruction(
    input: &[u8],
    tokens: &Vec<Token>,
    pos: &mut usize,
    instr: &mut Vec<ParsedInstruction>,
    data_labels: &LabelMap,
    data_offset: u32,
) -> (r: Result<usize, Error>)
    requires
        forall|j: int| 0 <= j < tokens@.len() ==> token_wf(#[trigger] tokens@[j], input@.len()),
        *old(pos) < tokens@.len(),
    ensures
        *final(pos) <= tokens@.len(),
        *old(pos) <= *final(pos),
        r matches Ok(c) ==> (c == 1 || c == 2) && final(instr)@.len() == old(instr)@.len() + c
            && *final(pos) > *old(pos),
        r matches Ok(c) ==> (spec_instruction_step(
            input@,
            tokens@,
            *old(pos) as int,
            data_labels@,
            data_offset,
        ) matches Some(step) && step.0 == *final(pos) as int && final(instr)@ == old(instr)@
            + step.1),
        r is Err ==> spec_instruction_step(
            input@,
            tokens@,
            *old(pos) as int,
            data_labels@,
            data_offset,
        ) is None,
        forall|i: int| 0 <= i < old(instr)@.len() ==> final(instr)@[i] == old(instr)@[i],
        forall|i: int|
            old(instr)@.len() <= i < final(instr)@.len() ==> parsed_wf(
                #[trigger] final(instr)@[i],
                input@.len(),
            ),
{
    let ghost tok_pos = *old(pos) as int;
    proof {
        lemma_step_dispatch(input@, tokens@, tok_pos, data_labels@, data_offset);
    }
    let total = tokens.len();
    let tok = tokens[*pos];
    match tok.kind {
        TokenKind::Ident => {},
        _ => {
            return Err(Error { kind: AssembleError::Syntax, span: tok.span });
        },
    }
    let upper = upper_range(input, tok.span.start, tok.span.end);
    let m = match classify(upper.as_slice()) {
        Some(m) => m,
        None => {
            return Err(Error { kind: AssembleError::UnknownMnemonic, span: tok.span });
        },
    };
    *pos = *pos + 1;
    match m {
        Mnemonic::Alu(funct) => {
            let (rd, rs1, rs2) = match parse_regs3(tokens, pos) {
                Ok(v) => v,
                Err(e) => {
                    return Err(e);
                },
            };
            push_one(input, instr, ParsedInstruction::Complete(make_alu_instruction(funct, rd, rs1, rs2)));
            Ok(1)
        },
        Mnemonic::Flop(funct) => {
            let (rd, rs1, rs2) = match parse_regs3(tokens, pos) {
                Ok(v) => v,
                Err(e) => {
                    return Err(e);
                },
            };
            push_one(input, instr, ParsedInstruction::Complete(make_flop_instruction(funct, rd, rs1, rs2)));
            Ok(1)
        },
        Mnemonic::ISigned(oc) => {
            let (rd, rs1) = match parse_regs2(tokens, pos) {
                Ok(v) => v,
                Err(e) => {
                    return Err(e);
                },
            };
            match expect_comma(tokens, pos) {
                Ok(_) => {},
                Err(e) => {
                    return Err(e);
                },
            }
            let imm = match expect_imm16(input, tokens, pos) {
                Ok(v) => v,
                Err(e) => {
                    return Err(e);
                },
            };
            push_one(input, instr, ParsedInstruction::Complete(make_i_instruction(oc, rd, rs1, imm)));
            Ok(1)
        },
        Mnemonic::IUnsigned(oc) => {
            let (rd, rs1) = match parse_regs2(tokens, pos) {
                Ok(v) => v,
                Err(e) => {
                    return Err(e);
                },
            };
            match expect_comma(tokens, pos) {
                Ok(_) => {},
                Err(e) => {
                    return Err(e);
                },
            }
            let imm = match expect_uimm16(input, tokens, pos) {
                Ok(v) => v,
                Err(e) => {
                    return Err(e);
                },
            };
            push_one(input, instr, ParsedInstruction::Complete(make_i_instruction(oc, rd, rs1, imm)));
            Ok(1)
        },
        Mnemonic::LoadStore(oc) => {
            // `L*/S* rd, imm(rs1)`
            let rd = match expect_register(tokens, pos) {
                Ok(v) => v,
                Err(e) => {
                    return Err(e);
                },
            };
            match expect_comma(tokens, pos) {
                Ok(_) => {},
                Err(e) => {
                    return Err(e);
                },
            }
            let imm = match expect_imm16(input, tokens, pos) {
                Ok(v) => v,
                Err(e) => {
                    return Err(e);
                },
            };
            if *pos >= tokens.len() || tokens[*pos].kind != TokenKind::LParen {
                return Err(Error { kind: AssembleError::Syntax, span: tok.span });
            }
            *pos = *pos + 1;
            let rs1 = match expect_register(tokens, pos) {
                Ok(v) => v,
                Err(e) => {
                    return Err(e);
                },
            };
            if *pos >= tokens.len() || tokens[*pos].kind != TokenKind::RParen {
                return Err(Error { kind: AssembleError::Syntax, span: tok.span });
            }
            *pos = *pos + 1;
            push_one(input, instr, ParsedInstruction::Complete(make_i_instruction(oc, rd, rs1, imm)));
            Ok(1)
        },
        Mnemonic::DualReg(oc) => {
            let (rd, rs1) = match parse_regs2(tokens, pos) {
                Ok(v) => v,
                Err(e) => {
                    return Err(e);
                },
            };
            push_one(input, instr, ParsedInstruction::Complete(make_i_instruction(oc, rd, rs1, 0i16)));
            Ok(1)
        },
        Mnemonic::LoadImm(oc) => {
            let rd = match expect_register(tokens, pos) {
                Ok(v) => v,
                Err(e) => {
                    return Err(e);
                },
            };
            match expect_comma(tokens, pos) {
                Ok(_) => {},
                Err(e) => {
                    return Err(e);
                },
            }
            let imm = match expect_imm16(input, tokens, pos) {
                Ok(v) => v,
                Err(e) => {
                    return Err(e);
                },
            };
            push_one(
                input,
                instr,
                ParsedInstruction::Complete(make_i_instruction(oc, rd, RegisterId::ZERO, imm)),
            );
            Ok(1)
        },
        Mnemonic::SetImm(oc) => {
            let rd = match expect_register(tokens, pos) {
                Ok(v) => v,
                Err(e) => {
                    return Err(e);
                },
            };
            match expect_comma(tokens, pos) {
                Ok(_) => {},
                Err(e) => {
                    return Err(e);
                },
            }
            let imm = match expect_uimm16(input, tokens, pos) {
                Ok(v) => v,
                Err(e) => {
                    return Err(e);
                },
            };
            push_one(
                input,
                instr,
                ParsedInstruction::Complete(make_i_instruction(oc, rd, RegisterId::ZERO, imm)),
            );
            Ok(1)
        },
        Mnemonic::Empty(oc) => {
            push_one(
                input,
                instr,
                ParsedInstruction::Complete(
                    make_i_instruction(oc, RegisterId::ZERO, RegisterId::ZERO, 0i16),
                ),
            );
            Ok(1)
        },
        _ => emit_flow(input, tokens, pos, instr, data_labels, data_offset, m, Ghost(tok_pos)),
    }
}

/// The flow-control and shorthand shapes of [`process_instruction`]:
/// branches, jumps, the stack shorthands and the wide loads, taken over
/// after the mnemonic at `tok_pos` was classified as `m`.
#[verifier::rlimit(100)]
#[verifier::spinoff_prover]
fn emit_flow(
    input: &[u8],
    tokens: &Vec<Token>,
    pos: &mut usize,
    instr: &mut Vec<ParsedInstruction>,
    data_labels: &LabelMap,
    data_offset: u32,
    m: Mnemonic,
    Ghost(tok_pos): Ghost<int>,
) -> (r: Result<usize, Error>)
    requires
        forall|j: int| 0 <= j < tokens@.len() ==> token_wf(#[trigger] tokens@[j], input@.len()),
        0 <= tok_pos < tokens@.len(),
        tokens@[tok_pos].kind == TokenKind::Ident,
        *old(pos) == tok_pos + 1,
        spec_classify(
            upper_of(
                input@.subrange(
                    tokens@[tok_pos].span.start as int,
                    tokens@[tok_pos].span.end as int,
                ),
            ),
        ) == Some(m),
        m is Branch || m is JumpReg || m is Jump || m is Push || m is Pop || m is Lwi || m is Lda
            || m is Lia,
    ensures
        *final(pos) <= tokens@.len(),
        *old(pos) <= *final(pos),
        r matches Ok(c) ==> (c == 1 || c == 2) && final(instr)@.len() == old(instr)@.len() + c
            && *final(pos) > tok_pos,
        r matches Ok(c) ==> (spec_instruction_step(
            input@,
            tokens@,
            tok_pos,
            data_labels@,
            data_offset,
        ) matches Some(step) && step.0 == *final(pos) as int && final(instr)@ == old(instr)@
            + step.1),
        r is Err ==> spec_instruction_step(
            input@,
            tokens@,
            tok_pos,
            data_labels@,
            data_offset,
        ) is None,
        forall|i: int| 0 <= i < old(instr)@.len() ==> final(instr)@[i] == old(instr)@[i],
        forall|i: int|
            old(instr)@.len() <= i < final(instr)@.len() ==> parsed_wf(
                #[trigger] final(instr)@[i],
                input@.len(),
            ),
{
    proof {
        lemma_step_dispatch(input@, tokens@, tok_pos, data_labels@, data_offset);
    }
    let tok = tokens[*pos - 1];
    match m {
        Mnemonic::Branch(oc) => {
            let rs1 = match expect_register(tokens, pos) {
                Ok(v) => v,
                Err(e) => {
                    return Err(e);
                },
            };
            match expect_comma(tokens, pos) {
                Ok(_) => {},
                Err(e) => {
                    return Err(e);
                },
            }
            if *pos >= tokens.len() {
                return Err(Error { kind: AssembleError::Syntax, span: tok.span });
            }
            let target_tok = tokens[*pos];
            match target_tok.kind {
                TokenKind::Ident => {
                    *pos = *pos + 1;
                    push_one(
                        input,
                        instr,
                        ParsedInstruction::Branch {
                            opcode: oc,
                            rs1,
                            target: JumpTarget::Label(target_tok.span),
                        },
                    );
                    Ok(1)
                },
                TokenKind::Int { .. } => {
                    let imm = match expect_imm16(input, tokens, pos) {
                        Ok(v) => v,
                        Err(e) => {
                            return Err(e);
                        },
                    };
                    push_one(
                        input,
                        instr,
                        ParsedInstruction::Branch {
                            opcode: oc,
                            rs1,
                            target: JumpTarget::Address(imm),
                        },
                    );
                    Ok(1)
                },
                _ => Err(Error { kind: AssembleError::Syntax, span: target_tok.span }),
            }
        },
        Mnemonic::JumpReg(oc) => {
            let rs1 = match expect_register(tokens, pos) {
                Ok(v) => v,
                Err(e) => {
                    return Err(e);
                },
            };
            push_one(
                input,
                instr,
                ParsedInstruction::Complete(make_i_instruction(oc, RegisterId::ZERO, rs1, 0i16)),
            );
            Ok(1)
        },
        Mnemonic::Jump(oc) => {
            if *pos >= tokens.len() {
                return Err(Error { kind: AssembleError::Syntax, span: tok.span });
            }
            let target_tok = tokens[*pos];
            match target_tok.kind {
                TokenKind::Ident => {
                    *pos = *pos + 1;
                    push_one(
                        input,
                        instr,
                        ParsedInstruction::Jump {
                            opcode: oc,
                            target: JumpTarget::Label(target_tok.span),
                        },
                    );
                    Ok(1)
                },
                TokenKind::Int { .. } => {
                    let t = match expect_int(input, tokens, pos) {
                        Ok(t) => t,
                        Err(e) => {
                            return Err(e);
                        },
                    };
                    let bits = match process_int(input, &t, 32) {
                        Ok(b) => b,
                        Err(e) => {
                            return Err(e);
                        },
                    };
                    push_one(
                        input,
                        instr,
                        ParsedInstruction::Jump {
                            opcode: oc,
                            target: JumpTarget::Address(crate::numbers::i32_from_bits(bits)),
                        },
                    );
                    Ok(1)
                },
                _ => Err(Error { kind: AssembleError::Syntax, span: target_tok.span }),
            }
        },
        Mnemonic::Push => {
            let rs = match expect_register(tokens, pos) {
                Ok(v) => v,
                Err(e) => {
                    return Err(e);
                },
            };
            push_one(
                input,
                instr,
                ParsedInstruction::Complete(
                    make_i_instruction(Opcode::SW, rs, RegisterId::SP, -4i16),
                ),
            );
            push_one(
                input,
                instr,
                ParsedInstruction::Complete(
                    make_i_instruction(Opcode::SUBI, RegisterId::SP, RegisterId::SP, 4i16),
                ),
            );
            Ok(2)
        },
        Mnemonic::Pop => {
            let rd = match expect_register(tokens, pos) {
                Ok(v) => v,
                Err(e) => {
                    return Err(e);
                },
            };
            push_one(
                input,
                instr,
                ParsedInstruction::Complete(
                    make_i_instruction(Opcode::LW, rd, RegisterId::SP, 0i16),
                ),
            );
            push_one(
                input,
                instr,
                ParsedInstruction::Complete(
                    make_i_instruction(Opcode::ADDI, RegisterId::SP, RegisterId::SP, 4i16),
                ),
            );
            Ok(2)
        },
        Mnemonic::Lwi => {
            let rd = match expect_register(tokens, pos) {
                Ok(v) => v,
                Err(e) => {
                    return Err(e);
                },
            };
            match expect_comma(tokens, pos) {
                Ok(_) => {},
                Err(e) => {
                    return Err(e);
                },
            }
            let bits = match expect_bits32(input, tokens, pos) {
                Ok(b) => b,
                Err(e) => {
                    return Err(e);
                },
            };
            push_wide_load(input, instr, rd, bits);
            Ok(2)
        },
        Mnemonic::Lda => {
            let rd = match expect_register(tokens, pos) {
                Ok(v) => v,
                Err(e) => {
                    return Err(e);
                },
            };
            match expect_comma(tokens, pos) {
                Ok(_) => {},
                Err(e) => {
                    return Err(e);
                },
            }
            if *pos >= tokens.len() {
                return Err(Error { kind: AssembleError::Syntax, span: tok.span });
            }
            let label_tok = tokens[*pos];
            match label_tok.kind {
                TokenKind::Ident => {},
                _ => {
                    return Err(Error { kind: AssembleError::Syntax, span: label_tok.span });
                },
            }
            *pos = *pos + 1;
            let name = crate::executable::copy_bytes(
                input,
                label_tok.span.start,
                label_tok.span.end - label_tok.span.start,
            );
            let address = match data_labels.get(name.as_slice()) {
                Some(a) => a,
                None => {
                    return Err(Error { kind: AssembleError::UnknownLabel, span: label_tok.span });
                },
            };
            let offset_address = address.wrapping_add(data_offset);
            push_wide_load(input, instr, rd, offset_address);
            Ok(2)
        },
        Mnemonic::Lia => {
            let rd = match expect_register(tokens, pos) {
                Ok(v) => v,
                Err(e) => {
                    return Err(e);
                },
            };
            match expect_comma(tokens, pos) {
                Ok(_) => {},
                Err(e) => {
                    return Err(e);
                },
            }
            if *pos >= tokens.len() {
                return Err(Error { kind: AssembleError::Syntax, span: tok.span });
            }
            let label_tok = tokens[*pos];
            match label_tok.kind {
                TokenKind::Ident => {},
                _ => {
                    return Err(Error { kind: AssembleError::Syntax, span: label_tok.span });
                },
            }
            *pos = *pos + 1;
            push_one(
                input,
                instr,
                ParsedInstruction::LoadInstructionAddress { label: label_tok.span, rd, upper: false },
            );
            push_one(
                input,
                instr,
                ParsedInstruction::LoadInstructionAddress { label: label_tok.span, rd, upper: true },
            );
            Ok(2)
        },
        _ => Err(Error { kind: AssembleError::Syntax, span: tok.span }),
    }
}

/// Pushes the two-instruction load of a full 32-bit pattern: `SLO` with
/// its low half, then `SHI` with its high half.
fn push_wide_load(input: &[u8], instr: &mut Vec<ParsedInstruction>, rd: RegisterId, bits: u32)
    ensures
        final(instr)@.len() == old(instr)@.len() + 2,
        final(instr)@ == old(instr)@ + spec_wide_load(rd, bits),
        forall|i: int| 0 <= i < old(instr)@.len() ==> #[trigger] final(instr)@[i] == old(instr)@[i],
        forall|i: int|
            old(instr)@.len() <= i < final(instr)@.len() ==> parsed_wf(
                #[trigger] final(instr)@[i],
                input@.len(),
            ),
{
    let low = i16_from_bits((bits % 0x1_0000) as u16);
    let high = i16_from_bits((bits / 0x1_0000) as u16);
    push_one(
        input,
        instr,
        ParsedInstruction::Complete(make_i_instruction(Opcode::SLO, rd, RegisterId::ZERO, low)),
    );
    push_one(
        input,
        instr,
        ParsedInstruction::Complete(make_i_instruction(Opcode::SHI, rd, RegisterId::ZERO, high)),
    );
    proof {
        assert(instr@ =~= old(instr)@ + spec_wide_load(rd, bits));
    }
}

/// The instructions section's walk from `tokens[pos]`, with the
/// instructions, labels and source map collected so far: an optional
/// `label:` binds the index of the next emitted instruction and must be
/// followed by one; each mnemonic emits per
/// [`spec_instruction_step`]; every emitted instruction receives a
/// source-map entry covering the lines from the label (or mnemonic) to
/// the last operand; and the walk fails past [`INSTR_MAX`]
/// instructions.
pub open spec fn spec_instructions_walk(
    input: Seq<u8>,
    tokens: Seq<Token>,
    pos: int,
    instrs: Seq<ParsedInstruction>,
    labels: Seq<(Seq<u8>, u32)>,
    map: Seq<SourceMapItem>,
    data_labels: Seq<(Seq<u8>, u32)>,
    data_offset: u32,
) -> Option<(Seq<ParsedInstruction>, Seq<(Seq<u8>, u32)>, Seq<SourceMapItem>)>
    decreases tokens.len() - pos,
    when 0 <= pos
{
    if pos >= tokens.len() {
        Some((instrs, labels, map))
    } else {
        let start_line = tokens[pos].span.line;
        let has_label = tokens[pos].kind == TokenKind::Ident && pos + 1 < tokens.len() && tokens[
            pos + 1].kind == TokenKind::Colon;
        let ipos = if has_label {
            pos + 2
        } else {
            pos
        };
        let labels2 = if has_label {
            seq![
                (
                    input.subrange(tokens[pos].span.start as int, tokens[pos].span.end as int),
                    instrs.len() as u32,
                ),
            ] + labels
        } else {
            labels
        };
        if has_label && ipos >= tokens.len() {
            None
        } else {
            match spec_instruction_step(input, tokens, ipos, data_labels, data_offset) {
                None => None,
                Some(step) => {
                    let instrs2 = instrs + step.1;
                    if instrs2.len() > INSTR_MAX {
                        None
                    } else {
                        let end_line = tokens[step.0 - 1].span.end_line;
                        let item = SourceMapItem {
                            start_line,
                            line_count: (if end_line >= start_line {
                                end_line - start_line + 1
                            } else {
                                1
                            }) as u32,
                        };
                        // the walk only continues within the tokens; a
                        // step always lands there, so the guard never
                        // clips in fact
                        let next = if ipos < step.0 <= tokens.len() {
                            step.0
                        } else {
                            tokens.len() as int
                        };
                        spec_instructions_walk(
                            input,
                            tokens,
                            next,
                            instrs2,
                            labels2,
                            map + Seq::new(step.1.len(), |k: int| item),
                            data_labels,
                            data_offset,
                        )
                    }
                },
            }
        }
    }
}

/// The whole instructions pass: the section must open with the
/// `.instructions` directive, then its labeled mnemonics follow to the
/// end of the input.
pub open spec fn spec_instructions(
    input: Seq<u8>,
    tokens: Seq<Token>,
    pos: int,
    data_labels: Seq<(Seq<u8>, u32)>,
    data_offset: u32,
) -> Option<(Seq<ParsedInstruction>, Seq<(Seq<u8>, u32)>, Seq<SourceMapItem>)> {
    if 0 <= pos < tokens.len() && tokens[pos].kind == TokenKind::Directive(
        Directive::Instructions,
    ) {
        spec_instructions_walk(
            input,
            tokens,
            pos + 1,
            Seq::empty(),
            Seq::empty(),
            Seq::empty(),
            data_labels,
            data_offset,
        )
    } else {
        None
    }
}

/// Walks the `.instructions` section from `tokens[*pos]`: exactly
/// [`spec_instructions`]. It must open with the `.instructions`
/// directive, then optionally labeled mnemonics follow to the end of
/// the input; a `label:` binds the index of the next emitted
/// instruction — for a shorthand, its first one — and must be followed
/// by an instruction. The source map receives one entry per emitted
/// instruction, covering the lines from the label to the mnemonic's
/// last operand. Fails on a malformed instruction or when more than
/// [`INSTR_MAX`] instructions are emitted.
#[verifier::rlimit(100)]
#[verifier::spinoff_prover]
pub fn process_instructions(
    input: &[u8],
    tokens: &Vec<Token>,
    pos: &mut usize,
    data_labels: &LabelMap,
    data_offset: u32,
) -> (r: Result<(Vec<ParsedInstruction>, LabelMap, SourceMap), Error>)
    requires
        forall|j: int| 0 <= j < tokens@.len() ==> token_wf(#[trigger] tokens@[j], input@.len()),
        *old(pos) <= tokens@.len(),
    ensures
        r matches Ok(t) ==> spec_instructions(
            input@,
            tokens@,
            *old(pos) as int,
            data_labels@,
            data_offset,
        ) == Some((t.0@, t.1@, t.2@)),
        r is Err ==> spec_instructions(
            input@,
            tokens@,
            *old(pos) as int,
            data_labels@,
            data_offset,
        ) is None,
        r matches Ok(t) ==> ({
            &&& t.0@.len() == t.2@.len()
            &&& t.0@.len() <= INSTR_MAX
            &&& forall|i: int|
                0 <= i < t.0@.len() ==> parsed_wf(#[trigger] t.0@[i], input@.len())
            &&& forall|n: Seq<u8>|
                (#[trigger] spec_get(t.1@, n)) matches Some(v) ==> v <= t.0@.len()
        }),
{
    let ghost p0 = *old(pos) as int;
    let end_span = crate::assembler::Span {
        start: input.len(),
        end: input.len(),
        line: 1,
        end_line: 1,
    };
    let n = tokens.len();
    if *pos >= n {
        return Err(Error { kind: AssembleError::Syntax, span: end_span });
    }
    let opening = tokens[*pos];
    match opening.kind {
        TokenKind::Directive(Directive::Instructions) => {},
        _ => {
            return Err(Error { kind: AssembleError::Syntax, span: opening.span });
        },
    }
    *pos = *pos + 1;
    let mut instr: Vec<ParsedInstruction> = Vec::new();
    let mut labels = LabelMap::new();
    let mut source_map: SourceMap = Vec::new();
    proof {
        assert(labels@ =~= Seq::<(Seq<u8>, u32)>::empty());
        assert(spec_instructions(input@, tokens@, p0, data_labels@, data_offset)
            == spec_instructions_walk(
            input@,
            tokens@,
            p0 + 1,
            instr@,
            labels@,
            source_map@,
            data_labels@,
            data_offset,
        ));
    }
    while *pos < n
        invariant
            forall|j: int| 0 <= j < tokens@.len() ==> token_wf(#[trigger] tokens@[j], input@.len()),
            n == tokens@.len(),
            *pos <= n,
            p0 == *old(pos) as int,
            instr@.len() == source_map@.len(),
            instr@.len() <= INSTR_MAX,
            spec_instructions(input@, tokens@, p0, data_labels@, data_offset)
                == spec_instructions_walk(
                input@,
                tokens@,
                *pos as int,
                instr@,
                labels@,
                source_map@,
                data_labels@,
                data_offset,
            ),
            forall|k: int| 0 <= k < instr@.len() ==> parsed_wf(#[trigger] instr@[k], input@.len()),
            forall|nm: Seq<u8>|
                (#[trigger] spec_get(labels@, nm)) matches Some(v) ==> v <= instr@.len(),
        decreases n - *pos,
    {
        let ghost entry_pos = *pos as int;
        let ghost entry_instr = instr@;
        let ghost entry_labels = labels@;
        let ghost entry_map = source_map@;
        let first = tokens[*pos];
        let start_line = first.span.line;
        // an optional label binds the next instruction's index
        let has_label = first.kind == TokenKind::Ident && *pos + 1 < n && tokens[*pos + 1].kind
            == TokenKind::Colon;
        if has_label {
            let name = crate::executable::copy_bytes(
                input,
                first.span.start,
                first.span.end - first.span.start,
            );
            proof {
                assert(name@ == input@.subrange(
                    first.span.start as int,
                    first.span.end as int,
                ));
            }
            labels.insert(name, instr.len() as u32);
            *pos = *pos + 2;
            if *pos >= n {
                // a label must be followed by an instruction
                return Err(Error { kind: AssembleError::Syntax, span: first.span });
            }
        }
        let count = match process_instruction(input, tokens, pos, &mut instr, data_labels, data_offset) {
            Ok(c) => c,
            Err(e) => {
                return Err(e);
            },
        };
        if instr.len() > INSTR_MAX as usize {
            return Err(Error { kind: AssembleError::ProgramTooLarge, span: first.span });
        }
        let last = tokens[*pos - 1];
        let end_line = last.span.end_line;
        let line_count: u32 = if end_line >= start_line {
            end_line - start_line + 1
        } else {
            1
        };
        let item = SourceMapItem { start_line, line_count };
        source_map.push(item);
        if count == 2 {
            source_map.push(item);
        }
        proof {
            let step = spec_instruction_step(
                input@,
                tokens@,
                (if has_label {
                    entry_pos + 2
                } else {
                    entry_pos
                }),
                data_labels@,
                data_offset,
            ).unwrap();
            assert(source_map@ =~= entry_map + Seq::new(step.1.len(), |k: int| item));
            assert(spec_instructions(input@, tokens@, p0, data_labels@, data_offset)
                == spec_instructions_walk(
                input@,
                tokens@,
                *pos as int,
                instr@,
                labels@,
                source_map@,
                data_labels@,
                data_offset,
            ));
        }
    }
    Ok((instr, labels, source_map))
}

/// The label a span names in the source text./// The label a span names in the source text.
pub open spec fn label_of(input: Seq<u8>, span: Span) -> Seq<u8> {
    input.subrange(span.start as int, span.end as int)
}

/// The resolved 16-bit byte offset of a branch target at instruction
/// index `current`: a literal offset as given; a label's relative byte
/// distance `(index - current) * 4`, which must fit the immediate
/// field.
pub open spec fn resolve_branch_spec(
    input: Seq<u8>,
    labels: Seq<(Seq<u8>, u32)>,
    target: JumpTarget<i16>,
    current: u32,
) -> Result<i16, AssembleError> {
    match target {
        JumpTarget::Address(a) => Ok(a),
        JumpTarget::Label(span) => match spec_get(labels, label_of(input, span)) {
            None => Err(AssembleError::UnknownLabel),
            Some(idx) => {
                let dist = (idx - current) * 4;
                if -0x8000 <= dist <= 0x7FFF {
                    Ok(dist as i16)
                } else {
                    Err(AssembleError::JumpTooFar)
                }
            },
        },
    }
}

/// The resolved byte offset of a jump target at instruction index
/// `current`: a literal offset as given; a label's relative byte
/// distance, which must fit the signed 26-bit address field.
pub open spec fn resolve_jump_spec(
    input: Seq<u8>,
    labels: Seq<(Seq<u8>, u32)>,
    target: JumpTarget<i32>,
    current: u32,
) -> Result<i32, AssembleError> {
    match target {
        JumpTarget::Address(a) => Ok(a),
        JumpTarget::Label(span) => match spec_get(labels, label_of(input, span)) {
            None => Err(AssembleError::UnknownLabel),
            Some(idx) => {
                let dist = (idx - current) * 4;
                if -0x200_0000 <= dist <= 0x1FF_FFFF {
                    Ok(dist as i32)
                } else {
                    Err(AssembleError::JumpTooFar)
                }
            },
        },
    }
}

/// The word pass two emits for one parsed instruction at index
/// `current`: a complete word as is; a branch or jump with its resolved
/// offset in the immediate or address field; an instruction-address
/// load with the label's absolute byte address `index * 4`, low or high
/// half by its flag.
pub open spec fn finalize_spec(
    input: Seq<u8>,
    labels: Seq<(Seq<u8>, u32)>,
    pi: ParsedInstruction,
    current: u32,
) -> Result<u32, AssembleError> {
    match pi {
        ParsedInstruction::Complete(w) => Ok(w),
        ParsedInstruction::Branch { opcode, rs1, target } => match resolve_branch_spec(
            input,
            labels,
            target,
            current,
        ) {
            Ok(imm) => Ok(
                encode_i(opcode_value(opcode), 0, register_value(rs1), u16_bits(imm)),
            ),
            Err(e) => Err(e),
        },
        ParsedInstruction::Jump { opcode, target } => match resolve_jump_spec(
            input,
            labels,
            target,
            current,
        ) {
            Ok(addr) => Ok(encode_j(opcode_value(opcode), u32_bits(addr))),
            Err(e) => Err(e),
        },
        ParsedInstruction::LoadInstructionAddress { label, rd, upper } => match spec_get(
            labels,
            label_of(input, label),
        ) {
            None => Err(AssembleError::UnknownLabel),
            Some(idx) => {
                let address = wrap32(idx * 4);
                if upper {
                    Ok(
                        encode_i(
                            opcode_value(Opcode::SHI),
                            register_value(rd),
                            0,
                            (address / 0x1_0000) as u16,
                        ),
                    )
                } else {
                    Ok(
                        encode_i(
                            opcode_value(Opcode::SLO),
                            register_value(rd),
                            0,
                            (address % 0x1_0000) as u16,
                        ),
                    )
                }
            },
        },
    }
}

/// Resolves one parsed instruction at index `current` to its word, as
/// [`finalize_spec`] fixes it; an error carries the span of the label
/// that failed.
pub fn finalize_instruction(
    input: &[u8],
    labels: &LabelMap,
    pi: &ParsedInstruction,
    current: u32,
) -> (r: Result<Word, Error>)
    requires
        parsed_wf(*pi, input@.len()),
    ensures
        match r {
            Ok(w) => finalize_spec(input@, labels@, *pi, current) == Ok::<u32, AssembleError>(w),
            Err(e) => finalize_spec(input@, labels@, *pi, current) == Err::<u32, AssembleError>(
                e.kind,
            ),
        },
{
    match pi {
        ParsedInstruction::Complete(w) => Ok(*w),
        ParsedInstruction::Branch { opcode, rs1, target } => {
            let imm: i16 = match target {
                JumpTarget::Address(a) => *a,
                JumpTarget::Label(span) => {
                    let name = crate::executable::copy_bytes(
                        input,
                        span.start,
                        span.end - span.start,
                    );
                    match labels.get(name.as_slice()) {
                        None => {
                            return Err(
                                Error { kind: AssembleError::UnknownLabel, span: *span },
                            );
                        },
                        Some(idx) => {
                            let dist: i64 = (idx as i64 - current as i64) * 4;
                            if -0x8000 <= dist && dist <= 0x7FFF {
                                dist as i16
                            } else {
                                return Err(
                                    Error { kind: AssembleError::JumpTooFar, span: *span },
                                );
                            }
                        },
                    }
                },
            };
            Ok(make_i_instruction(*opcode, RegisterId::ZERO, *rs1, imm))
        },
        ParsedInstruction::Jump { opcode, target } => {
            let addr: i32 = match target {
                JumpTarget::Address(a) => *a,
                JumpTarget::Label(span) => {
                    let name = crate::executable::copy_bytes(
                        input,
                        span.start,
                        span.end - span.start,
                    );
                    match labels.get(name.as_slice()) {
                        None => {
                            return Err(
                                Error { kind: AssembleError::UnknownLabel, span: *span },
                            );
                        },
                        Some(idx) => {
                            let dist: i64 = (idx as i64 - current as i64) * 4;
                            if -0x200_0000 <= dist && dist <= 0x1FF_FFFF {
                                dist as i32
                            } else {
                                return Err(
                                    Error { kind: AssembleError::JumpTooFar, span: *span },
                                );
                            }
                        },
                    }
                },
            };
            Ok(make_j_instruction(*opcode, addr))
        },
        ParsedInstruction::LoadInstructionAddress { label, rd, upper } => {
            let name = crate::executable::copy_bytes(input, label.start, label.end - label.start);
            match labels.get(name.as_slice()) {
                None => Err(Error { kind: AssembleError::UnknownLabel, span: *label }),
                Some(idx) => {
                    let address = idx.wrapping_mul(4);
                    proof {
                        assert(wrap32(idx * 4) == address) by {
                            assert(vstd::wrapping::u32_specs::wrapping_mul(idx, 4u32) == wrap32(
                                idx * 4,
                            ));
                        }
                    }
                    if *upper {
                        Ok(
                            make_i_instruction(
                                Opcode::SHI,
                                *rd,
                                RegisterId::ZERO,
                                i16_from_bits((address / 0x1_0000) as u16),
                            ),
                        )
                    } else {
                        Ok(
                            make_i_instruction(
                                Opcode::SLO,
                                *rd,
                                RegisterId::ZERO,
                                i16_from_bits((address % 0x1_0000) as u16),
                            ),
                        )
                    }
                },
            }
        },
    }
}

/// A parsed instruction's label spans lie within the input.
pub open spec fn parsed_wf(pi: ParsedInstruction, len: nat) -> bool {
    match pi {
        ParsedInstruction::Branch { target: JumpTarget::Label(span), .. } => span.start <= span.end
            <= len,
        ParsedInstruction::Jump { target: JumpTarget::Label(span), .. } => span.start <= span.end
            <= len,
        ParsedInstruction::LoadInstructionAddress { label, .. } => label.start <= label.end <= len,
        _ => true,
    }
}

/// The words pass two emits for the instructions from index `i` on,
/// each resolved per [`finalize_spec`] and encoded as four
/// little-endian bytes; `None` as soon as one cannot be resolved.
pub open spec fn spec_words_from(
    input: Seq<u8>,
    labels: Seq<(Seq<u8>, u32)>,
    instrs: Seq<ParsedInstruction>,
    i: int,
) -> Option<Seq<u8>>
    decreases instrs.len() - i,
    when 0 <= i
{
    if i >= instrs.len() {
        Some(Seq::empty())
    } else {
        match finalize_spec(input, labels, instrs[i], i as u32) {
            Err(_) => None,
            Ok(w) => match spec_words_from(input, labels, instrs, i + 1) {
                None => None,
                Some(rest) => Some(le_bytes(w as nat, 4) + rest),
            },
        }
    }
}

/// Pass two: resolves every parsed instruction and encodes the words
/// little-endian, four bytes each, in order. On success byte `4*i`
/// onward holds the word [`finalize_spec`] fixes for instruction `i`;
/// the first unresolvable instruction turns into its error.
pub fn assemble_instructions(
    input: &[u8],
    instr: &Vec<ParsedInstruction>,
    labels: &LabelMap,
) -> (r: Result<Vec<u8>, Error>)
    requires
        instr@.len() <= INSTR_MAX,
        forall|i: int| 0 <= i < instr@.len() ==> parsed_wf(#[trigger] instr@[i], input@.len()),
    ensures
        match r {
            Ok(bytes) => {
                &&& spec_words_from(input@, labels@, instr@, 0) == Some(bytes@)
                &&& bytes@.len() == 4 * instr@.len()
                &&& forall|i: int|
                    0 <= i < instr@.len() ==> ({
                        &&& finalize_spec(input@, labels@, #[trigger] instr@[i], i as u32) is Ok
                        &&& bytes@.subrange(4 * i, 4 * i + 4) == le_bytes(
                            finalize_spec(input@, labels@, instr@[i], i as u32).unwrap() as nat,
                            4,
                        )
                    })
            },
            Err(e) => spec_words_from(input@, labels@, instr@, 0) is None,
        },
{
    let n = instr.len();
    let mut out: Vec<u8> = Vec::new();
    let mut i: usize = 0;
    proof {
        match spec_words_from(input@, labels@, instr@, 0) {
            Some(rest) => {
                assert(Seq::<u8>::empty() + rest =~= rest);
            },
            None => {},
        }
    }
    while i < n
        invariant
            i <= n,
            n == instr@.len() <= INSTR_MAX,
            forall|j: int| 0 <= j < instr@.len() ==> parsed_wf(#[trigger] instr@[j], input@.len()),
            out@.len() == 4 * i,
            match spec_words_from(input@, labels@, instr@, i as int) {
                Some(rest) => spec_words_from(input@, labels@, instr@, 0) == Some(out@ + rest),
                None => spec_words_from(input@, labels@, instr@, 0) is None,
            },
            forall|j: int|
                0 <= j < i ==> ({
                    &&& finalize_spec(input@, labels@, #[trigger] instr@[j], j as u32) is Ok
                    &&& out@.subrange(4 * j, 4 * j + 4) == le_bytes(
                        finalize_spec(input@, labels@, instr@[j], j as u32).unwrap() as nat,
                        4,
                    )
                }),
        decreases n - i,
    {
        let word = match finalize_instruction(input, labels, &instr[i], i as u32) {
            Ok(w) => w,
            Err(e) => {
                proof {
                    assert(spec_words_from(input@, labels@, instr@, i as int) is None);
                }
                return Err(e);
            },
        };
        let ghost prev = out@;
        proof {
            crate::endian::lemma_le_bytes_value(word as nat, 4);
        }
        crate::executable::push_le32_bytes(&mut out, word);
        i = i + 1;
        proof {
            match spec_words_from(input@, labels@, instr@, i as int) {
                Some(rest) => {
                    assert(prev + (le_bytes(word as nat, 4) + rest) =~= out@ + rest);
                },
                None => {},
            }
        }
        proof {
            assert forall|j: int|
                0 <= j < i implies ({
                &&& finalize_spec(input@, labels@, #[trigger] instr@[j], j as u32) is Ok
                &&& out@.subrange(4 * j, 4 * j + 4) == le_bytes(
                    finalize_spec(input@, labels@, instr@[j], j as u32).unwrap() as nat,
                    4,
                )
            }) by {
                if j < i - 1 {
                    assert(out@.subrange(4 * j, 4 * j + 4) =~= prev.subrange(4 * j, 4 * j + 4));
                } else {
                    assert(out@.subrange(4 * j, 4 * j + 4) =~= le_bytes(word as nat, 4));
                }
            }
        }
    }
    proof {
        match spec_words_from(input@, labels@, instr@, n as int) {
            Some(rest) => {
                assert(out@ + rest =~= out@);
            },
            None => {},
        }
    }
    Ok(out)
}

} // verus!
