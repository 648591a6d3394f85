//! The lexical grammar: identifiers `[A-Za-z_][A-Za-z0-9_]*`, registers
//! `$NAME` (matched ignoring case), section and data directives
//! beginning with a dot, integer literals — decimal with an optional
//! sign, or unsigned `0x…`, `0o…`, `0b…` — and the punctuation of the
//! instruction shapes. Comments run from `#` to the end of the line;
//! whitespace only separates tokens.

use vstd::prelude::*;

use crate::assembler::{AssembleError, Error, Span};
use crate::instructions::RegisterId;

verus! {

/// The directives of the two sections.
#[derive(Clone, Copy, PartialEq, Eq, Structural, Debug)]
pub enum Directive {
    /// `.data`, opening the data section.
    Data,
    /// `.instructions`, opening the instructions section.
    Instructions,
    /// `.block N`: reserve `N` zero bytes.
    Block,
    /// `.byte i[,i]*`: signed 8-bit integers.
    Byte,
    /// `.half i[,i]*` (also written `.short`): signed 16-bit integers.
    Half,
    /// `.word i[,i]*`: signed 32-bit integers.
    Word,
}

/// One token of the source text.
#[derive(Clone, Copy, PartialEq, Eq, Structural, Debug)]
pub enum TokenKind {
    /// An identifier: a label, a mnemonic, or a jump target.
    Ident,
    /// A register, already resolved from its `$NAME` spelling.
    Register(RegisterId),
    /// An integer literal; the digits (without sign and radix prefix)
    /// sit at `digits_start..digits_end` of the input.
    Int { negative: bool, radix: u32, digits_start: usize, digits_end: usize },
    /// A section or data directive.
    Directive(Directive),
    /// `,`
    Comma,
    /// `:`
    Colon,
    /// `(`
    LParen,
    /// `)`
    RParen,
}

/// A token with the source range it was read from.
#[derive(Clone, Copy, PartialEq, Eq, Structural, Debug)]
pub struct Token {
    pub kind: TokenKind,
    pub span: Span,
}

/// A token's ranges lie within an input of `len` bytes and its line
/// numbers are one-based.
pub open spec fn token_wf(t: Token, len: nat) -> bool {
    &&& t.span.start <= t.span.end <= len
    &&& t.span.line >= 1
    &&& t.span.end_line == t.span.line
    &&& match t.kind {
        TokenKind::Int { negative, radix, digits_start, digits_end } => digits_start <= digits_end
            <= len && (radix == 2 || radix == 8 || radix == 10 || radix == 16),
        _ => true,
    }
}


/// Whether a byte may start an identifier (a letter or an underscore).
pub open spec fn spec_ident_start(c: u8) -> bool {
    c == 95 || (65 <= c <= 90) || (97 <= c <= 122)
}

/// Whether a byte may continue an identifier.
pub open spec fn spec_ident_part(c: u8) -> bool {
    spec_ident_start(c) || (48 <= c <= 57)
}

/// A byte with any ASCII lower-case letter replaced by its upper-case
/// form.
pub open spec fn spec_upper(c: u8) -> u8 {
    if 97 <= c <= 122 {
        (c - 32) as u8
    } else {
        c
    }
}

/// A byte string with its ASCII letters upper-cased.
pub open spec fn upper_of(s: Seq<u8>) -> Seq<u8> {
    s.map_values(|c: u8| spec_upper(c))
}

/// Whether a byte is a digit of the given radix's literal class: a
/// decimal digit, or for radix 16 also a hexadecimal letter.
pub open spec fn spec_digit_char(c: u8, radix: u32) -> bool {
    (48 <= c <= 57) || (radix == 16 && ((97 <= c <= 102) || (65 <= c <= 70)))
}

/// Whether a byte ends a directive name: whitespace, a newline, or the
/// start of a comment.
pub open spec fn spec_separator(c: u8) -> bool {
    c == 32 || c == 9 || c == 13 || c == 10 || c == 35
}

/// The first position at or after `i` that cannot continue an
/// identifier.
pub open spec fn ident_end(input: Seq<u8>, i: int) -> int
    decreases input.len() - i,
{
    if 0 <= i < input.len() && spec_ident_part(input[i]) {
        ident_end(input, i + 1)
    } else {
        i
    }
}

/// The first position at or after `i` holding a newline, or the end of
/// the input.
pub open spec fn comment_end(input: Seq<u8>, i: int) -> int
    decreases input.len() - i,
{
    if 0 <= i < input.len() && input[i] != 10 {
        comment_end(input, i + 1)
    } else {
        i
    }
}

/// The first position at or after `i` that is no digit of the radix.
pub open spec fn digits_end(input: Seq<u8>, i: int, radix: u32) -> int
    decreases input.len() - i,
{
    if 0 <= i < input.len() && spec_digit_char(input[i], radix) {
        digits_end(input, i + 1, radix)
    } else {
        i
    }
}

/// Every scan ends at or after where it starts, and at or before the
/// end of the input.
pub proof fn lemma_scan_bounds(input: Seq<u8>, i: int, radix: u32)
    requires
        0 <= i <= input.len(),
    ensures
        i <= ident_end(input, i) <= input.len(),
        i <= comment_end(input, i) <= input.len(),
        i <= digits_end(input, i, radix) <= input.len(),
    decreases input.len() - i,
{
    if i < input.len() {
        lemma_scan_bounds(input, i + 1, radix);
    }
}

/// The register an upper-cased name denotes, if any: the defining
/// table of register spellings.
pub open spec fn spec_register_of(u: Seq<u8>) -> Option<RegisterId> {
    if u.len() == 4 && u[0] == 90 && u[1] == 69 && u[2] == 82 && u[3] == 79 {
        Some(RegisterId::ZERO)
    } else if u.len() == 2 && u[0] == 86 && u[1] == 48 {
        Some(RegisterId::V0)
    } else if u.len() == 2 && u[0] == 86 && u[1] == 49 {
        Some(RegisterId::V1)
    } else if u.len() == 2 && u[0] == 65 && u[1] == 48 {
        Some(RegisterId::A0)
    } else if u.len() == 2 && u[0] == 65 && u[1] == 49 {
        Some(RegisterId::A1)
    } else if u.len() == 2 && u[0] == 65 && u[1] == 50 {
        Some(RegisterId::A2)
    } else if u.len() == 2 && u[0] == 65 && u[1] == 51 {
        Some(RegisterId::A3)
    } else if u.len() == 2 && u[0] == 65 && u[1] == 52 {
        Some(RegisterId::A4)
    } else if u.len() == 2 && u[0] == 84 && u[1] == 48 {
        Some(RegisterId::T0)
    } else if u.len() == 2 && u[0] == 84 && u[1] == 49 {
        Some(RegisterId::T1)
    } else if u.len() == 2 && u[0] == 84 && u[1] == 50 {
        Some(RegisterId::T2)
    } else if u.len() == 2 && u[0] == 84 && u[1] == 51 {
        Some(RegisterId::T3)
    } else if u.len() == 2 && u[0] == 84 && u[1] == 52 {
        Some(RegisterId::T4)
    } else if u.len() == 2 && u[0] == 84 && u[1] == 53 {
        Some(RegisterId::T5)
    } else if u.len() == 2 && u[0] == 84 && u[1] == 54 {
        Some(RegisterId::T6)
    } else if u.len() == 2 && u[0] == 84 && u[1] == 55 {
        Some(RegisterId::T7)
    } else if u.len() == 2 && u[0] == 84 && u[1] == 56 {
        Some(RegisterId::T8)
    } else if u.len() == 2 && u[0] == 84 && u[1] == 57 {
        Some(RegisterId::T9)
    } else if u.len() == 2 && u[0] == 83 && u[1] == 48 {
        Some(RegisterId::S0)
    } else if u.len() == 2 && u[0] == 83 && u[1] == 49 {
        Some(RegisterId::S1)
    } else if u.len() == 2 && u[0] == 83 && u[1] == 50 {
        Some(RegisterId::S2)
    } else if u.len() == 2 && u[0] == 83 && u[1] == 51 {
        Some(RegisterId::S3)
    } else if u.len() == 2 && u[0] == 83 && u[1] == 52 {
        Some(RegisterId::S4)
    } else if u.len() == 2 && u[0] == 83 && u[1] == 53 {
        Some(RegisterId::S5)
    } else if u.len() == 2 && u[0] == 83 && u[1] == 54 {
        Some(RegisterId::S6)
    } else if u.len() == 2 && u[0] == 83 && u[1] == 55 {
        Some(RegisterId::S7)
    } else if u.len() == 2 && u[0] == 83 && u[1] == 56 {
        Some(RegisterId::S8)
    } else if u.len() == 2 && u[0] == 83 && u[1] == 57 {
        Some(RegisterId::S9)
    } else if u.len() == 2 && u[0] == 83 && u[1] == 80 {
        Some(RegisterId::SP)
    } else if u.len() == 2 && u[0] == 70 && u[1] == 80 {
        Some(RegisterId::FP)
    } else if u.len() == 2 && u[0] == 82 && u[1] == 77 {
        Some(RegisterId::RM)
    } else if u.len() == 2 && u[0] == 82 && u[1] == 65 {
        Some(RegisterId::RA)
    } else {
        None
    }
}

/// The directive an upper-cased name (read after a dot) denotes, if
/// any: the defining table of directive spellings. Both `HALF` and
/// `SHORT` name the two-byte data element.
pub open spec fn spec_directive_of(u: Seq<u8>) -> Option<Directive> {
    if u.len() == 4 && u[0] == 68 && u[1] == 65 && u[2] == 84 && u[3] == 65 {
        Some(Directive::Data)
    } else if u.len() == 4 && u[0] == 66 && u[1] == 89 && u[2] == 84 && u[3] == 69 {
        Some(Directive::Byte)
    } else if u.len() == 4 && u[0] == 72 && u[1] == 65 && u[2] == 76 && u[3] == 70 {
        Some(Directive::Half)
    } else if u.len() == 4 && u[0] == 87 && u[1] == 79 && u[2] == 82 && u[3] == 68 {
        Some(Directive::Word)
    } else if u.len() == 5 && u[0] == 66 && u[1] == 76 && u[2] == 79 && u[3] == 67 && u[4] == 75 {
        Some(Directive::Block)
    } else if u.len() == 5 && u[0] == 83 && u[1] == 72 && u[2] == 79 && u[3] == 82 && u[4] == 84 {
        Some(Directive::Half)
    } else if u.len() == 12 && u[0] == 73 && u[1] == 78 && u[2] == 83 && u[3] == 84 && u[4] == 82 && u[5] == 85 && u[6] == 67 && u[7] == 84 && u[8] == 73 && u[9] == 79 && u[10] == 78 && u[11] == 83 {
        Some(Directive::Instructions)
    } else {
        None
    }
}

/// The line a newline advances to: one more, saturating at the largest
/// representable line.
pub open spec fn next_line(line: u32) -> u32 {
    if line < u32::MAX {
        (line + 1) as u32
    } else {
        line
    }
}

/// A token in front of the rest of a token stream, or the error the
/// rest carries.
pub open spec fn with_token(t: Token, rest: Option<Seq<Token>>) -> Option<Seq<Token>> {
    match rest {
        Some(r) => Some(seq![t] + r),
        None => None,
    }
}

/// The token stream of the input from position `i` on line `line`, or
/// `None` where the input leaves the lexical grammar: the defining
/// specification of the tokenizer.
pub open spec fn spec_tokens_from(input: Seq<u8>, i: int, line: u32) -> Option<Seq<Token>>
    decreases input.len() - i,
    when 0 <= i
    via spec_tokens_from_decreases
{
    if i >= input.len() {
        Some(Seq::empty())
    } else {
        let c = input[i];
        if c == 32 || c == 9 || c == 13 {
            spec_tokens_from(input, i + 1, line)
        } else if c == 10 {
            spec_tokens_from(input, i + 1, next_line(line))
        } else if c == 35 {
            spec_tokens_from(input, comment_end(input, i + 1), line)
        } else if c == 44 || c == 58 || c == 40 || c == 41 {
            let kind = if c == 44 {
                TokenKind::Comma
            } else if c == 58 {
                TokenKind::Colon
            } else if c == 40 {
                TokenKind::LParen
            } else {
                TokenKind::RParen
            };
            with_token(
                Token {
                    kind,
                    span: Span { start: i as usize, end: (i + 1) as usize, line, end_line: line },
                },
                spec_tokens_from(input, i + 1, line),
            )
        } else if spec_ident_start(c) {
            let j = ident_end(input, i + 1);
            with_token(
                Token {
                    kind: TokenKind::Ident,
                    span: Span { start: i as usize, end: j as usize, line, end_line: line },
                },
                spec_tokens_from(input, j, line),
            )
        } else if c == 36 {
            let j = ident_end(input, i + 1);
            match spec_register_of(upper_of(input.subrange(i + 1, j))) {
                Some(id) => with_token(
                    Token {
                        kind: TokenKind::Register(id),
                        span: Span { start: i as usize, end: j as usize, line, end_line: line },
                    },
                    spec_tokens_from(input, j, line),
                ),
                None => None,
            }
        } else if c == 46 {
            let j = ident_end(input, i + 1);
            if j < input.len() && !spec_separator(input[j]) {
                None
            } else {
                match spec_directive_of(upper_of(input.subrange(i + 1, j))) {
                    Some(d) => with_token(
                        Token {
                            kind: TokenKind::Directive(d),
                            span: Span {
                                start: i as usize,
                                end: j as usize,
                                line,
                                end_line: line,
                            },
                        },
                        spec_tokens_from(input, j, line),
                    ),
                    None => None,
                }
            }
        } else if (48 <= c <= 57) || c == 45 {
            let negative = c == 45;
            if negative && (i + 1 >= input.len() || !(48 <= input[i + 1] <= 57)) {
                None
            } else {
                let marker = if !negative && c == 48 && i + 1 < input.len() {
                    input[i + 1]
                } else {
                    0
                };
                let radix: u32 = if marker == 120 || marker == 88 {
                    16
                } else if marker == 111 || marker == 79 {
                    8
                } else if marker == 98 || marker == 66 {
                    2
                } else {
                    10
                };
                let ds = if radix != 10 {
                    i + 2
                } else if negative {
                    i + 1
                } else {
                    i
                };
                let j = digits_end(input, ds, radix);
                if j == ds {
                    None
                } else {
                    with_token(
                        Token {
                            kind: TokenKind::Int {
                                negative,
                                radix,
                                digits_start: ds as usize,
                                digits_end: j as usize,
                            },
                            span: Span {
                                start: i as usize,
                                end: j as usize,
                                line,
                                end_line: line,
                            },
                        },
                        spec_tokens_from(input, j, line),
                    )
                }
            }
        } else {
            None
        }
    }
}

#[via_fn]
proof fn spec_tokens_from_decreases(input: Seq<u8>, i: int, line: u32) {
    if 0 <= i && i < input.len() {
        lemma_scan_bounds(input, i + 1, 16);
        lemma_scan_bounds(input, i + 1, 10);
        lemma_scan_bounds(input, i, 10);
        if i + 2 <= input.len() {
            lemma_scan_bounds(input, i + 2, 16);
            lemma_scan_bounds(input, i + 2, 8);
            lemma_scan_bounds(input, i + 2, 2);
        }
    }
}

/// The token stream of the whole input, starting on line one.
pub open spec fn spec_tokens(input: Seq<u8>) -> Option<Seq<Token>> {
    spec_tokens_from(input, 0, 1)
}

/// A token stream with a prefix of already-read tokens in front, or the
/// error it carries.
pub open spec fn with_tokens(prefix: Seq<Token>, rest: Option<Seq<Token>>) -> Option<Seq<Token>> {
    match rest {
        Some(r) => Some(prefix + r),
        None => None,
    }
}

/// Whether a byte may start an identifier.
fn is_ident_start(c: u8) -> (r: bool)
    ensures
        r == (c == 95 || (65 <= c <= 90) || (97 <= c <= 122)),
{
    c == 95 || (65 <= c && c <= 90) || (97 <= c && c <= 122)
}

/// Whether a byte may continue an identifier.
fn is_ident_part(c: u8) -> (r: bool)
    ensures
        r == (c == 95 || (65 <= c <= 90) || (97 <= c <= 122) || (48 <= c <= 57)),
{
    is_ident_start(c) || (48 <= c && c <= 57)
}

/// A byte with any ASCII lower-case letter replaced by its upper-case
/// form.
pub fn ascii_upper(c: u8) -> (r: u8)
    ensures
        r == (if 97 <= c <= 122 {
            (c - 32) as u8
        } else {
            c
        }),
{
    if 97 <= c && c <= 122 {
        c - 32
    } else {
        c
    }
}

/// A copy of `bytes[start..end]` with ASCII letters upper-cased.
pub fn upper_range(bytes: &[u8], start: usize, end: usize) -> (r: Vec<u8>)
    requires
        start <= end <= bytes@.len(),
    ensures
        r@ == upper_of(bytes@.subrange(start as int, end as int)),
        r@.len() == end - start,
{
    let mut out: Vec<u8> = Vec::new();
    let mut i: usize = start;
    while i < end
        invariant
            start <= i <= end <= bytes@.len(),
            out@ =~= upper_of(bytes@.subrange(start as int, i as int)),
        decreases end - i,
    {
        out.push(ascii_upper(bytes[i]));
        i = i + 1;
        proof {
            assert(out@ =~= upper_of(bytes@.subrange(start as int, i as int)));
        }
    }
    proof {
        assert(out@ =~= upper_of(bytes@.subrange(start as int, end as int)));
    }
    out
}

/// The register named by an upper-cased identifier, if any: exactly
/// [`spec_register_of`].
pub fn register_from_name(b: &[u8]) -> (r: Option<RegisterId>)
    ensures
        r == spec_register_of(b@),
{
    if b.len() == 4 {
        if b[0] == 90 && b[1] == 69 && b[2] == 82 && b[3] == 79 {
            // ZERO
            return Some(RegisterId::ZERO);
        }
        return None;
    }
    if b.len() != 2 {
        return None;
    }
    let c0 = b[0];
    let c1 = b[1];
    match c0 {
        86 => match c1 {  // V
            48 => Some(RegisterId::V0),
            49 => Some(RegisterId::V1),
            _ => None,
        },
        65 => match c1 {  // A
            48 => Some(RegisterId::A0),
            49 => Some(RegisterId::A1),
            50 => Some(RegisterId::A2),
            51 => Some(RegisterId::A3),
            52 => Some(RegisterId::A4),
            _ => None,
        },
        84 => match c1 {  // T
            48 => Some(RegisterId::T0),
            49 => Some(RegisterId::T1),
            50 => Some(RegisterId::T2),
            51 => Some(RegisterId::T3),
            52 => Some(RegisterId::T4),
            53 => Some(RegisterId::T5),
            54 => Some(RegisterId::T6),
            55 => Some(RegisterId::T7),
            56 => Some(RegisterId::T8),
            57 => Some(RegisterId::T9),
            _ => None,
        },
        83 => match c1 {  // S
            48 => Some(RegisterId::S0),
            49 => Some(RegisterId::S1),
            50 => Some(RegisterId::S2),
            51 => Some(RegisterId::S3),
            52 => Some(RegisterId::S4),
            53 => Some(RegisterId::S5),
            54 => Some(RegisterId::S6),
            55 => Some(RegisterId::S7),
            56 => Some(RegisterId::S8),
            57 => Some(RegisterId::S9),
            80 => Some(RegisterId::SP),  // SP
            _ => None,
        },
        70 => if c1 == 80 {  // FP
            Some(RegisterId::FP)
        } else {
            None
        },
        82 => match c1 {  // R
            77 => Some(RegisterId::RM),  // RM
            65 => Some(RegisterId::RA),  // RA
            _ => None,
        },
        _ => None,
    }
}

/// The directive named by an identifier read after a dot: exactly
/// [`spec_directive_of`] of its upper-cased form.
fn directive_from_name(b: &[u8]) -> (r: Option<Directive>)
    ensures
        r == spec_directive_of(upper_of(b@)),
{
    let up = upper_range(b, 0, b.len());
    let u = up.as_slice();
    if u.len() == 4 {
        if u[0] == 68 && u[1] == 65 && u[2] == 84 && u[3] == 65 {
            // DATA
            return Some(Directive::Data);
        }
        if u[0] == 66 && u[1] == 89 && u[2] == 84 && u[3] == 69 {
            // BYTE
            return Some(Directive::Byte);
        }
        if u[0] == 72 && u[1] == 65 && u[2] == 76 && u[3] == 70 {
            // HALF
            return Some(Directive::Half);
        }
        if u[0] == 87 && u[1] == 79 && u[2] == 82 && u[3] == 68 {
            // WORD
            return Some(Directive::Word);
        }
        return None;
    }
    if u.len() == 5 {
        if u[0] == 66 && u[1] == 76 && u[2] == 79 && u[3] == 67 && u[4] == 75 {
            // BLOCK
            return Some(Directive::Block);
        }
        if u[0] == 83 && u[1] == 72 && u[2] == 79 && u[3] == 82 && u[4] == 84 {
            // SHORT
            return Some(Directive::Half);
        }
        return None;
    }
    if u.len() == 12 {
        let expected: [u8; 12] = [73, 78, 83, 84, 82, 85, 67, 84, 73, 79, 78, 83];  // INSTRUCTIONS
        let mut i: usize = 0;
        while i < 12
            invariant
                i <= 12,
                u@.len() == 12,
                u@ == upper_of(b@),
                expected@ =~= seq![73u8, 78, 83, 84, 82, 85, 67, 84, 73, 79, 78, 83],
                forall|k: int| 0 <= k < i ==> u@[k] == expected@[k],
            decreases 12 - i,
        {
            if u[i] != expected[i] {
                return None;
            }
            i = i + 1;
        }
        return Some(Directive::Instructions);
    }
    None
}

/// Splits the source text into tokens, skipping whitespace and
/// comments and tracking one-based line numbers. Fails, pointing at the
/// offending byte, on a stray byte, an empty or unknown register name,
/// an unknown directive, or an integer literal without digits.
/// A read token in front of the remaining stream keeps the overall
/// stream.
proof fn lemma_with_tokens_push(prefix: Seq<Token>, t: Token, rest: Option<Seq<Token>>)
    ensures
        with_tokens(prefix, with_token(t, rest)) == with_tokens(prefix.push(t), rest),
{
    match rest {
        Some(r) => {
            assert(prefix + (seq![t] + r) =~= prefix.push(t) + r);
        },
        None => {},
    }
}

/// Splits the source text into tokens, skipping whitespace and
/// comments and tracking one-based line numbers: exactly
/// [`spec_tokens`]. It fails — pointing at the offending byte — on
/// precisely the inputs the lexical grammar rejects: a stray byte, an
/// unknown register or directive name, a directive without a following
/// separator, or an integer literal without digits.
#[verifier::rlimit(100)]
#[verifier::spinoff_prover]
pub fn tokenize(input: &[u8]) -> (r: Result<Vec<Token>, Error>)
    ensures
        r matches Ok(tokens) ==> spec_tokens(input@) == Some(tokens@),
        r is Err ==> spec_tokens(input@) is None,
        r matches Ok(tokens) ==> forall|j: int|
            0 <= j < tokens@.len() ==> token_wf(#[trigger] tokens@[j], input@.len()),
{
    let n = input.len();
    let mut out: Vec<Token> = Vec::new();
    let mut i: usize = 0;
    let mut line: u32 = 1;
    proof {
        match spec_tokens_from(input@, 0, 1) {
            Some(r0) => {
                assert(Seq::<Token>::empty() + r0 =~= r0);
            },
            None => {},
        }
    }
    while i < n
        invariant
            i <= n,
            n == input@.len(),
            line >= 1,
            spec_tokens(input@) == with_tokens(out@, spec_tokens_from(input@, i as int, line)),
            forall|j: int| 0 <= j < out@.len() ==> token_wf(#[trigger] out@[j], input@.len()),
        decreases n - i,
    {
        let ghost i0 = i as int;
        let ghost line0 = line;
        let ghost out0 = out@;
        let c = input[i];
        if c == 32 || c == 9 || c == 13 {
            i = i + 1;
        } else if c == 10 {
            if line < u32::MAX {
                line = line + 1;
            }
            i = i + 1;
            proof {
                assert(line == next_line(line0));
            }
        } else if c == 35 {
            // comment until end of line
            i = i + 1;
            while i < n && input[i] != 10
                invariant
                    i0 < i <= n,
                    n == input@.len(),
                    comment_end(input@, i0 + 1) == comment_end(input@, i as int),
                decreases n - i,
            {
                i = i + 1;
            }
            proof {
                assert(comment_end(input@, i as int) == i as int);
            }
        } else if c == 44 || c == 58 || c == 40 || c == 41 {
            let kind = if c == 44 {
                TokenKind::Comma
            } else if c == 58 {
                TokenKind::Colon
            } else if c == 40 {
                TokenKind::LParen
            } else {
                TokenKind::RParen
            };
            let tok = Token { kind, span: Span { start: i, end: i + 1, line, end_line: line } };
            out.push(tok);
            i = i + 1;
            proof {
                lemma_with_tokens_push(out0, tok, spec_tokens_from(input@, i as int, line));
            }
        } else if is_ident_start(c) {
            let start = i;
            i = i + 1;
            while i < n && is_ident_part(input[i])
                invariant
                    start < i <= n,
                    n == input@.len(),
                    ident_end(input@, start + 1) == ident_end(input@, i as int),
                decreases n - i,
            {
                i = i + 1;
            }
            proof {
                assert(ident_end(input@, i as int) == i as int);
            }
            let tok = Token {
                kind: TokenKind::Ident,
                span: Span { start, end: i, line, end_line: line },
            };
            out.push(tok);
            proof {
                lemma_with_tokens_push(out0, tok, spec_tokens_from(input@, i as int, line));
            }
        } else if c == 36 {
            // $register
            let start = i;
            i = i + 1;
            let name_start = i;
            while i < n && is_ident_part(input[i])
                invariant
                    name_start <= i <= n,
                    n == input@.len(),
                    ident_end(input@, name_start as int) == ident_end(input@, i as int),
                decreases n - i,
            {
                i = i + 1;
            }
            proof {
                assert(ident_end(input@, i as int) == i as int);
            }
            let upper = upper_range(input, name_start, i);
            match register_from_name(upper.as_slice()) {
                Some(id) => {
                    let tok = Token {
                        kind: TokenKind::Register(id),
                        span: Span { start, end: i, line, end_line: line },
                    };
                    out.push(tok);
                    proof {
                        lemma_with_tokens_push(out0, tok, spec_tokens_from(input@, i as int, line));
                    }
                },
                None => {
                    return Err(
                        Error {
                            kind: AssembleError::UnknownRegister,
                            span: Span { start: name_start, end: i, line, end_line: line },
                        },
                    );
                },
            }
        } else if c == 46 {
            // .directive
            let start = i;
            i = i + 1;
            let name_start = i;
            while i < n && is_ident_part(input[i])
                invariant
                    name_start <= i <= n,
                    n == input@.len(),
                    ident_end(input@, name_start as int) == ident_end(input@, i as int),
                decreases n - i,
            {
                i = i + 1;
            }
            proof {
                assert(ident_end(input@, i as int) == i as int);
            }
            if i < n && !(input[i] == 32 || input[i] == 9 || input[i] == 13 || input[i] == 10
                || input[i] == 35) {
                // a directive name ends at whitespace or a comment
                return Err(
                    Error {
                        kind: AssembleError::Syntax,
                        span: Span { start, end: i + 1, line, end_line: line },
                    },
                );
            }
            let name = crate::executable::copy_bytes(input, name_start, i - name_start);
            match directive_from_name(name.as_slice()) {
                Some(d) => {
                    let tok = Token {
                        kind: TokenKind::Directive(d),
                        span: Span { start, end: i, line, end_line: line },
                    };
                    out.push(tok);
                    proof {
                        lemma_with_tokens_push(out0, tok, spec_tokens_from(input@, i as int, line));
                    }
                },
                None => {
                    return Err(
                        Error {
                            kind: AssembleError::Syntax,
                            span: Span { start, end: i, line, end_line: line },
                        },
                    );
                },
            }
        } else if (48 <= c && c <= 57) || c == 45 {
            let start = i;
            let negative = c == 45;
            if negative {
                i = i + 1;
                if i >= n || !(48 <= input[i] && input[i] <= 57) {
                    return Err(
                        Error {
                            kind: AssembleError::Syntax,
                            span: Span { start, end: i, line, end_line: line },
                        },
                    );
                }
            }
            let mut radix: u32 = 10;
            let mut digits_start = i;
            if !negative && c == 48 && i + 1 < n {
                let marker = input[i + 1];
                if marker == 120 || marker == 88 {
                    radix = 16;
                    i = i + 2;
                    digits_start = i;
                } else if marker == 111 || marker == 79 {
                    radix = 8;
                    i = i + 2;
                    digits_start = i;
                } else if marker == 98 || marker == 66 {
                    radix = 2;
                    i = i + 2;
                    digits_start = i;
                }
            }
            while i < n && (
                (48 <= input[i] && input[i] <= 57)
                || (radix == 16 && ((97 <= input[i] && input[i] <= 102) || (65 <= input[i] && input[i] <= 70)))
            )
                invariant
                    digits_start <= i <= n,
                    n == input@.len(),
                    digits_end(input@, digits_start as int, radix) == digits_end(
                        input@,
                        i as int,
                        radix,
                    ),
                decreases n - i,
            {
                i = i + 1;
            }
            proof {
                assert(digits_end(input@, i as int, radix) == i as int);
            }
            if i == digits_start {
                return Err(
                    Error {
                        kind: AssembleError::Syntax,
                        span: Span { start, end: i, line, end_line: line },
                    },
                );
            }
            let tok = Token {
                kind: TokenKind::Int { negative, radix, digits_start, digits_end: i },
                span: Span { start, end: i, line, end_line: line },
            };
            out.push(tok);
            proof {
                lemma_with_tokens_push(out0, tok, spec_tokens_from(input@, i as int, line));
            }
        } else {
            return Err(
                Error {
                    kind: AssembleError::Syntax,
                    span: Span { start: i, end: i + 1, line, end_line: line },
                },
            );
        }
    }
    proof {
        match spec_tokens_from(input@, n as int, line) {
            Some(rest) => {
                assert(out@ + rest =~= out@);
            },
            None => {},
        }
    }
    Ok(out)
}

} // verus!
