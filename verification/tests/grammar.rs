//! The lexical grammar, checked against token spans: literals, comments,
//! identifiers, registers, directives and the data pass on small
//! fragments.

use vcpu::assembler::data::process_data;
use vcpu::assembler::int_util::process_uint;
use vcpu::assembler::lexer::{tokenize, Directive, TokenKind};
use vcpu::assembler::AssembleError;

fn span_of(input: &str, idx: usize) -> (usize, usize) {
    let tokens = tokenize(input.as_bytes()).unwrap();
    (tokens[idx].span.start, tokens[idx].span.end)
}

#[test]
fn comment() {
    let tokens = tokenize("# oai0\u{df}9jqp4o5gm66185 dA';:%".as_bytes()).unwrap();
    assert!(tokens.is_empty());

    let tokens = tokenize("#balbalao40j3\n ughalsdhgf".as_bytes()).unwrap();
    assert_eq!(tokens.len(), 1);
    assert_eq!(tokens[0].kind, TokenKind::Ident);
    assert_eq!((tokens[0].span.start, tokens[0].span.end), (15, 25));
}

#[test]
fn dec_uint() {
    let tokens = tokenize(b"4492").unwrap();
    assert_eq!(tokens.len(), 1);
    match tokens[0].kind {
        TokenKind::Int { negative, radix, digits_start, digits_end } => {
            assert!(!negative);
            assert_eq!(radix, 10);
            assert_eq!((digits_start, digits_end), (0, 4));
        },
        _ => panic!("expected an integer token"),
    }
    assert_eq!(span_of("4492", 0), (0, 4));
}

#[test]
fn bin_uint() {
    let tokens = tokenize(b"0b01011").unwrap();
    assert_eq!(span_of("0b01011", 0), (0, 7));
    match tokens[0].kind {
        TokenKind::Int { negative, radix, digits_start, digits_end } => {
            assert!(!negative);
            assert_eq!(radix, 2);
            assert_eq!((digits_start, digits_end), (2, 7));
        },
        _ => panic!("expected an integer token"),
    }
}

#[test]
fn oct_uint() {
    let tokens = tokenize(b"0o22406").unwrap();
    assert_eq!(span_of("0o22406", 0), (0, 7));
    match tokens[0].kind {
        TokenKind::Int { negative, radix, digits_start, digits_end } => {
            assert!(!negative);
            assert_eq!(radix, 8);
            assert_eq!((digits_start, digits_end), (2, 7));
        },
        _ => panic!("expected an integer token"),
    }
}

#[test]
fn hex_uint() {
    let tokens = tokenize(b"0xF40a67").unwrap();
    assert_eq!(span_of("0xF40a67", 0), (0, 8));
    match tokens[0].kind {
        TokenKind::Int { negative, radix, digits_start, digits_end } => {
            assert!(!negative);
            assert_eq!(radix, 16);
            assert_eq!((digits_start, digits_end), (2, 8));
        },
        _ => panic!("expected an integer token"),
    }
}

#[test]
fn identifier() {
    let tokens = tokenize(b"some label").unwrap();
    assert_eq!(tokens[0].kind, TokenKind::Ident);
    assert_eq!((tokens[0].span.start, tokens[0].span.end), (0, 4));

    let tokens = tokenize(b"_soGe56abel").unwrap();
    assert_eq!(tokens[0].kind, TokenKind::Ident);
    assert_eq!((tokens[0].span.start, tokens[0].span.end), (0, 11));

    // an identifier cannot start with a digit
    let tokens = tokenize(b"555___456sd").unwrap();
    assert!(matches!(tokens[0].kind, TokenKind::Int { .. }));
}

#[test]
fn register() {
    let tokens = tokenize(b"$t0").unwrap();
    assert_eq!(
        tokens[0].kind,
        TokenKind::Register(vcpu::instructions::RegisterId::T0)
    );
    assert_eq!((tokens[0].span.start, tokens[0].span.end), (0, 3));

    let err = tokenize(b"$bla").unwrap_err();
    assert_eq!(err.kind, AssembleError::UnknownRegister);
    assert_eq!(err.span.start, 1);

    let err = tokenize(b"$ t0").unwrap_err();
    assert_eq!(err.kind, AssembleError::UnknownRegister);
    assert_eq!(err.span.start, 1);
}

#[test]
fn data_block() {
    let tokens = tokenize(b".block   0x16").unwrap();
    assert_eq!(tokens[0].kind, TokenKind::Directive(Directive::Block));
    assert_eq!((tokens[0].span.start, tokens[0].span.end), (0, 6));
    match tokens[1].kind {
        TokenKind::Int { radix, digits_start, digits_end, .. } => {
            assert_eq!(radix, 16);
            assert_eq!((digits_start, digits_end), (11, 13));
        },
        _ => panic!("expected an integer token"),
    }
    assert_eq!((tokens[1].span.start, tokens[1].span.end), (9, 13));

    // a block size must be unsigned
    let tokens = tokenize(b".block -45").unwrap();
    let err = process_uint(b".block -45", &tokens[1], u32::MAX as u64).unwrap_err();
    assert_eq!(err.span.start, 7);

    // a directive name must be exact
    let err = tokenize(b".block5").unwrap_err();
    assert_eq!(err.kind, AssembleError::Syntax);
    assert_eq!(err.span.start, 0);
}

#[test]
fn data_byte() {
    let input = b".byte 34, -4,  0b001,0xFFa4";
    let tokens = tokenize(input).unwrap();
    assert_eq!(tokens[0].kind, TokenKind::Directive(Directive::Byte));
    let spans: Vec<(usize, usize)> = tokens.iter().map(|t| (t.span.start, t.span.end)).collect();
    assert_eq!(
        spans,
        vec![(0, 5), (6, 8), (8, 9), (10, 12), (12, 13), (15, 20), (20, 21), (21, 27)]
    );

    // a directive name must be exact
    let err = tokenize(b".byte34,22,9").unwrap_err();
    assert_eq!(err.kind, AssembleError::Syntax);
    assert_eq!(err.span.start, 0);
}

#[test]
fn labeled_data_element() {
    let tokens = tokenize(b"__something: .short 4").unwrap();
    assert_eq!(tokens[0].kind, TokenKind::Ident);
    assert_eq!((tokens[0].span.start, tokens[0].span.end), (0, 11));
    assert_eq!(tokens[1].kind, TokenKind::Colon);
    assert_eq!(tokens[2].kind, TokenKind::Directive(Directive::Half));
    assert_eq!((tokens[3].span.start, tokens[3].span.end), (20, 21));

    let tokens = tokenize(b"label4  :.word 0b11,  0x0Aa").unwrap();
    assert_eq!(tokens[0].kind, TokenKind::Ident);
    assert_eq!((tokens[0].span.start, tokens[0].span.end), (0, 6));
    assert_eq!(tokens[1].kind, TokenKind::Colon);
    assert_eq!(tokens[2].kind, TokenKind::Directive(Directive::Word));
    match tokens[3].kind {
        TokenKind::Int { radix, digits_start, digits_end, .. } => {
            assert_eq!(radix, 2);
            assert_eq!((digits_start, digits_end), (17, 19));
        },
        _ => panic!("expected an integer token"),
    }

    let tokens = tokenize(b".block 0b110").unwrap();
    assert_eq!(tokens[0].kind, TokenKind::Directive(Directive::Block));
    match tokens[1].kind {
        TokenKind::Int { radix, digits_start, digits_end, .. } => {
            assert_eq!(radix, 2);
            assert_eq!((digits_start, digits_end), (9, 12));
        },
        _ => panic!("expected an integer token"),
    }
}

#[test]
fn data() {
    let input = b".data .block 128";
    let tokens = tokenize(input).unwrap();
    let mut pos = 0;
    let (data, _labels) = process_data(input, &tokens, &mut pos).unwrap();
    assert_eq!(data, vec![0u8; 128]);

    // the sections must be separated from what follows them
    let err = tokenize(b".data.byte 3").unwrap_err();
    assert_eq!(err.kind, AssembleError::Syntax);
    assert_eq!(err.span.start, 0);
}

#[test]
fn instruction_e() {
    let tokens = tokenize(b"HaLT").unwrap();
    assert_eq!(tokens.len(), 1);
    assert_eq!(tokens[0].kind, TokenKind::Ident);
    assert_eq!((tokens[0].span.start, tokens[0].span.end), (0, 4));
}

#[test]
fn instruction_j() {
    let tokens = tokenize(b"JMP 0b110110").unwrap();
    assert_eq!(tokens[0].kind, TokenKind::Ident);
    assert_eq!((tokens[0].span.start, tokens[0].span.end), (0, 3));
    match tokens[1].kind {
        TokenKind::Int { radix, digits_start, digits_end, .. } => {
            assert_eq!(radix, 2);
            assert_eq!((digits_start, digits_end), (6, 12));
        },
        _ => panic!("expected an integer token"),
    }

    let tokens = tokenize(b"jl oGfe_A34_").unwrap();
    assert_eq!(tokens[0].kind, TokenKind::Ident);
    assert_eq!((tokens[0].span.start, tokens[0].span.end), (0, 2));
    assert_eq!(tokens[1].kind, TokenKind::Ident);
    assert_eq!((tokens[1].span.start, tokens[1].span.end), (3, 12));
}

#[test]
fn instructions() {
    let input = b".instructions HALT";
    let tokens = tokenize(input).unwrap();
    assert_eq!(tokens[0].kind, TokenKind::Directive(Directive::Instructions));
    assert_eq!((tokens[1].span.start, tokens[1].span.end), (14, 18));
    // and it assembles to a single HALT word
    let (executable, _) = vcpu::assembler::assemble(b".data\n.instructions HALT").unwrap();
    assert_eq!(executable.instructions().len(), 4);
}
