//! The assembler: a two-pass translator from the textual assembly
//! language to an executable container. Pass one tokenizes and parses
//! the `.data` and `.instructions` sections, emitting data bytes,
//! parsed instructions and the label tables; pass two resolves label
//! references and encodes the instruction words.

pub mod data;
pub mod instructions;
pub mod int_util;
pub mod labels;
pub mod lexer;
pub mod source_map;

use vstd::prelude::*;

use crate::assembler::data::{process_data, spec_data};
use crate::assembler::instructions::{assemble_instructions, process_instructions,
    spec_instructions, spec_words_from};
use crate::assembler::lexer::spec_tokens;
use crate::assembler::source_map::{SourceMap, SourceMapItem};
use crate::executable::Executable;

verus! {

/// A half-open byte range of the source text, with the one-based lines
/// it touches; assembler diagnostics carry one.
#[derive(Clone, Copy, PartialEq, Eq, Structural, Debug)]
pub struct Span {
    /// Byte offset of the first byte of the range.
    pub start: usize,
    /// Byte offset one past the last byte of the range.
    pub end: usize,
    /// One-based line the range starts on.
    pub line: u32,
    /// One-based line the range ends on.
    pub end_line: u32,
}

/// The closed set of reasons the assembler rejects an input; every
/// failure carries one, together with the source span it arose at.
#[derive(Clone, Copy, PartialEq, Eq, Structural, Debug)]
pub enum AssembleError {
    /// The input does not follow the grammar.
    Syntax,
    /// An integer literal does not fit the width its position demands.
    IntOutOfRange,
    /// A mnemonic names no instruction.
    UnknownMnemonic,
    /// A `$name` names no register.
    UnknownRegister,
    /// A label was referenced but never bound.
    UnknownLabel,
    /// A branch or jump to a label lies outside the reach of the
    /// instruction's immediate or address field.
    JumpTooFar,
    /// The data section exceeds its maximum size.
    DataTooLarge,
    /// The instructions section exceeds its maximum size.
    ProgramTooLarge,
}

/// An assembler diagnostic: what was rejected, and where.
#[derive(Clone, Copy, PartialEq, Eq, Structural, Debug)]
pub struct Error {
    /// The reason the input was rejected.
    pub kind: AssembleError,
    /// The source range the rejection points at.
    pub span: Span,
}

impl Error {
    /// A human-readable description of the diagnostic's reason.
    pub fn message(&self) -> (r: &'static str)
        ensures
            r@.len() > 0,
    {
        let r = match self.kind {
            AssembleError::Syntax => "The input does not follow the grammar",
            AssembleError::IntOutOfRange => "Parsing integer failed: out of range",
            AssembleError::UnknownMnemonic => "Unknown instruction mnemonic",
            AssembleError::UnknownRegister => "Unknown register name",
            AssembleError::UnknownLabel => "Label not found",
            AssembleError::JumpTooFar => "Jump distance too far",
            AssembleError::DataTooLarge => "Data exceeds maximum size",
            AssembleError::ProgramTooLarge => "Instructions exceed maximum size",
        };
        proof {
            reveal_strlit("The input does not follow the grammar");
            reveal_strlit("Parsing integer failed: out of range");
            reveal_strlit("Unknown instruction mnemonic");
            reveal_strlit("Unknown register name");
            reveal_strlit("Label not found");
            reveal_strlit("Jump distance too far");
            reveal_strlit("Data exceeds maximum size");
            reveal_strlit("Instructions exceed maximum size");
        }
        r
    }
}

/// What assembling a source text against `data_offset` yields, if
/// anything: the stages composed. The input is tokenized
/// ([`spec_tokens`]), the `.data` section is read from the first token
/// ([`spec_data`]), the `.instructions` section follows it
/// ([`spec_instructions`]), and pass two resolves and encodes the
/// instruction words ([`spec_words_from`]); the first stage to fail
/// fails the whole. On success: the instruction bytes, the data bytes,
/// and the source map.
pub open spec fn spec_assemble(input: Seq<u8>, data_offset: u32) -> Option<
    (Seq<u8>, Seq<u8>, Seq<SourceMapItem>),
> {
    match spec_tokens(input) {
        None => None,
        Some(tokens) => match spec_data(input, tokens, 0) {
            None => None,
            Some(d) => match spec_instructions(input, tokens, d.0, d.2, data_offset) {
                None => None,
                Some(t) => match spec_words_from(input, t.1, t.0, 0) {
                    None => None,
                    Some(words) => Some((words, d.1, t.2)),
                },
            },
        },
    }
}

/// Assembles a program whose data section will be loaded at
/// `data_offset`: tokenizes and parses both sections, then resolves
/// labels and encodes the instruction words. On success the container
/// carries the encoded instructions, the data bytes and `data_offset`;
/// the source map names, for each emitted instruction, the source lines
/// that produced it.
pub fn assemble_addressed(input: &[u8], data_offset: u32) -> (r: Result<
    (Executable, SourceMap),
    Error,
>)
    ensures
        r matches Ok(p) ==> spec_assemble(input@, data_offset) == Some(
            (p.0.spec_instructions(), p.0.spec_data(), p.1@),
        ),
        r is Err ==> spec_assemble(input@, data_offset) is None,
        r matches Ok(p) ==> ({
            &&& p.0.spec_data_offset() == data_offset
            &&& p.0.spec_instructions().len() % 4 == 0
            &&& p.0.spec_instructions().len() == 4 * p.1@.len()
            &&& p.0.wf()
        }),
{
    let tokens = match lexer::tokenize(input) {
        Ok(t) => t,
        Err(e) => {
            return Err(e);
        },
    };
    let mut pos: usize = 0;
    let (data, data_labels) = match process_data(input, &tokens, &mut pos) {
        Ok(d) => d,
        Err(e) => {
            return Err(e);
        },
    };
    let ghost data_pos = pos as int;
    let (instr, instr_labels, source_map) = match process_instructions(
        input,
        &tokens,
        &mut pos,
        &data_labels,
        data_offset,
    ) {
        Ok(t) => t,
        Err(e) => {
            return Err(e);
        },
    };
    let words = match assemble_instructions(input, &instr, &instr_labels) {
        Ok(w) => w,
        Err(e) => {
            return Err(e);
        },
    };
    proof {
        assert(spec_data(input@, tokens@, 0) == Some((data_pos, data@, data_labels@)));
        assert(spec_instructions(input@, tokens@, data_pos, data_labels@, data_offset) == Some(
            (instr@, instr_labels@, source_map@),
        ));
        assert(spec_assemble(input@, data_offset) == Some((words@, data@, source_map@)));
    }
    Ok((Executable::from(data_offset, words, data), source_map))
}

/// Assembles a program whose data section will be loaded at address 0.
pub fn assemble(input: &[u8]) -> (r: Result<(Executable, SourceMap), Error>)
    ensures
        r matches Ok(p) ==> spec_assemble(input@, 0) == Some(
            (p.0.spec_instructions(), p.0.spec_data(), p.1@),
        ),
        r is Err ==> spec_assemble(input@, 0) is None,
        r matches Ok(p) ==> ({
            &&& p.0.spec_data_offset() == 0
            &&& p.0.spec_instructions().len() % 4 == 0
            &&& p.0.spec_instructions().len() == 4 * p.1@.len()
            &&& p.0.wf()
        }),
{
    assemble_addressed(input, 0)
}

} // verus!
