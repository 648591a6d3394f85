//! The instruction shapes of the grammar, checked against token spans
//! and against the words they assemble to.

use vcpu::assembler::lexer::{tokenize, TokenKind};
use vcpu::instructions::RegisterId as R;

fn spans(input: &str) -> Vec<(usize, usize)> {
    tokenize(input.as_bytes())
        .unwrap()
        .iter()
        .map(|t| (t.span.start, t.span.end))
        .collect()
}

fn kinds(input: &str) -> Vec<TokenKind> {
    tokenize(input.as_bytes()).unwrap().iter().map(|t| t.kind).collect()
}

fn asm_line(line: &str) -> Vec<u8> {
    let input = format!(".data\n.instructions\n{}", line);
    let (executable, _) = vcpu::assembler::assemble(input.as_bytes()).unwrap();
    executable.instructions().to_vec()
}

#[test]
fn instruction_alu() {
    let input = "XOR $s0,   $V1,$Rm";
    assert_eq!(
        spans(input),
        vec![(0, 3), (4, 7), (7, 8), (11, 14), (14, 15), (15, 18)]
    );
    assert_eq!(kinds(input)[1], TokenKind::Register(R::S0));
    assert_eq!(kinds(input)[3], TokenKind::Register(R::V1));
    assert_eq!(kinds(input)[5], TokenKind::Register(R::RM));
    assert_eq!(asm_line(input).len(), 4);
}

#[test]
fn instruction_flop() {
    let input = "FDIV $s0,$V1, $a4";
    assert_eq!(kinds(input)[0], TokenKind::Ident);
    assert_eq!((spans(input)[0]), (0, 4));
    assert_eq!(kinds(input)[1], TokenKind::Register(R::S0));
    assert_eq!(spans(input)[1], (5, 8));
    assert_eq!(kinds(input)[5], TokenKind::Register(R::A4));
    assert_eq!(spans(input)[5], (14, 17));
    assert_eq!(asm_line(input).len(), 4);
}

#[test]
fn instruction_i() {
    let input = "SLTI  $zErO,$RA ,-443";
    assert_eq!(spans(input)[0], (0, 4));
    assert_eq!(kinds(input)[1], TokenKind::Register(R::ZERO));
    assert_eq!(spans(input)[1], (6, 11));
    assert_eq!(kinds(input)[3], TokenKind::Register(R::RA));
    match kinds(input)[5] {
        TokenKind::Int { negative, radix, .. } => {
            assert!(negative);
            assert_eq!(radix, 10);
        },
        _ => panic!("expected an integer token"),
    }
    assert_eq!(spans(input)[5], (17, 21));
    assert_eq!(asm_line(input).len(), 4);
}

#[test]
fn instruction_iu() {
    let input = "SLTUI  $t4,  $V1,3997";
    assert_eq!(spans(input)[0], (0, 5));
    assert_eq!(kinds(input)[1], TokenKind::Register(R::T4));
    assert_eq!(spans(input)[5], (17, 21));
    assert_eq!(asm_line(input).len(), 4);
}

#[test]
fn instruction_ds() {
    let input = "fLIp $ZERO , $rM";
    assert_eq!(spans(input)[0], (0, 4));
    assert_eq!(kinds(input)[1], TokenKind::Register(R::ZERO));
    assert_eq!(spans(input)[1], (5, 10));
    assert_eq!(kinds(input)[3], TokenKind::Register(R::RM));
    assert_eq!(spans(input)[3], (13, 16));
    assert_eq!(asm_line(input).len(), 4);
}

#[test]
fn instruction_li() {
    let input = "LHI $T5 ,0o442";
    assert_eq!(spans(input)[0], (0, 3));
    assert_eq!(kinds(input)[1], TokenKind::Register(R::T5));
    match kinds(input)[3] {
        TokenKind::Int { radix, digits_start, digits_end, .. } => {
            assert_eq!(radix, 8);
            assert_eq!((digits_start, digits_end), (11, 14));
        },
        _ => panic!("expected an integer token"),
    }
    assert_eq!(asm_line(input).len(), 4);
}

#[test]
fn instruction_si() {
    let input = "SHI $T5, 0x2345";
    assert_eq!(spans(input)[0], (0, 3));
    assert_eq!(kinds(input)[1], TokenKind::Register(R::T5));
    match kinds(input)[3] {
        TokenKind::Int { radix, digits_start, digits_end, .. } => {
            assert_eq!(radix, 16);
            assert_eq!((digits_start, digits_end), (11, 15));
        },
        _ => panic!("expected an integer token"),
    }
    assert_eq!(asm_line(input).len(), 4);
}

#[test]
fn instruction_br() {
    let input = "BEZ $t6, 0xd1";
    assert_eq!(spans(input)[0], (0, 3));
    assert_eq!(kinds(input)[1], TokenKind::Register(R::T6));
    match kinds(input)[3] {
        TokenKind::Int { radix, digits_start, digits_end, .. } => {
            assert_eq!(radix, 16);
            assert_eq!((digits_start, digits_end), (11, 13));
        },
        _ => panic!("expected an integer token"),
    }

    let input = "BnZ  $RM ,_55_arFd";
    assert_eq!(spans(input)[0], (0, 3));
    assert_eq!(kinds(input)[1], TokenKind::Register(R::RM));
    assert_eq!(spans(input)[1], (5, 8));
    assert_eq!(kinds(input)[3], TokenKind::Ident);
    assert_eq!(spans(input)[3], (10, 18));
}

#[test]
fn instruction_jr() {
    let input = "JLR   $zero";
    assert_eq!(spans(input), vec![(0, 3), (6, 11)]);
    assert_eq!(kinds(input)[1], TokenKind::Register(R::ZERO));
    assert_eq!(asm_line(input).len(), 4);
}

#[test]
fn instruction_ls() {
    let input = "sw $V1, -92 ($s5 )";
    assert_eq!(spans(input)[0], (0, 2));
    assert_eq!(kinds(input)[1], TokenKind::Register(R::V1));
    assert_eq!(spans(input)[1], (3, 6));
    match kinds(input)[3] {
        TokenKind::Int { negative, .. } => assert!(negative),
        _ => panic!("expected an integer token"),
    }
    assert_eq!(spans(input)[3], (8, 11));
    assert_eq!(kinds(input)[5], TokenKind::Register(R::S5));
    assert_eq!(spans(input)[5], (13, 16));
    assert_eq!(asm_line(input).len(), 4);
}

#[test]
fn instruction_push() {
    let input = "PUSH  $RA ";
    assert_eq!(spans(input), vec![(0, 4), (6, 9)]);
    assert_eq!(kinds(input)[1], TokenKind::Register(R::RA));
    // a push expands to two instructions
    assert_eq!(asm_line(input).len(), 8);
}

#[test]
fn instruction_pop() {
    let input = "POP $V0";
    assert_eq!(spans(input), vec![(0, 3), (4, 7)]);
    assert_eq!(kinds(input)[1], TokenKind::Register(R::V0));
    assert_eq!(asm_line(input).len(), 8);
}

#[test]
fn instruction_lwi() {
    let input = "lwi $T5,  0xF123f234";
    assert_eq!(spans(input)[0], (0, 3));
    assert_eq!(kinds(input)[1], TokenKind::Register(R::T5));
    match kinds(input)[3] {
        TokenKind::Int { radix, digits_start, digits_end, .. } => {
            assert_eq!(radix, 16);
            assert_eq!((digits_start, digits_end), (12, 20));
        },
        _ => panic!("expected an integer token"),
    }
    assert_eq!(spans(input)[3], (10, 20));
    assert_eq!(asm_line(input).len(), 8);
}

#[test]
fn instruction_lda() {
    let input = "lda $s4, f_44ash__0";
    assert_eq!(spans(input), vec![(0, 3), (4, 7), (7, 8), (9, 19)]);
    assert_eq!(kinds(input)[1], TokenKind::Register(R::S4));
    assert_eq!(kinds(input)[3], TokenKind::Ident);
}

#[test]
fn instruction_lia() {
    let input = "lia $s4, f_44ash__0";
    assert_eq!(spans(input), vec![(0, 3), (4, 7), (7, 8), (9, 19)]);
    assert_eq!(kinds(input)[1], TokenKind::Register(R::S4));
    assert_eq!(kinds(input)[3], TokenKind::Ident);
    let program = ".data\n.instructions\nlia $s4, f_44ash__0\nstuff: NOP";
    // the label is unknown, so assembling reports it
    assert_eq!(
        vcpu::assembler::assemble(program.as_bytes()).unwrap_err().kind,
        vcpu::assembler::AssembleError::UnknownLabel
    );
}

#[test]
fn labeled_instruction() {
    let input = "__aaaF5_: # comment \n JR $ra";
    let k = kinds(input);
    assert_eq!(k[0], TokenKind::Ident);
    assert_eq!(spans(input)[0], (0, 8));
    assert_eq!(k[1], TokenKind::Colon);
    assert_eq!(k[2], TokenKind::Ident);
    assert_eq!(spans(input)[2], (22, 24));
    assert_eq!(k[3], TokenKind::Register(R::RA));
    assert_eq!(spans(input)[3], (25, 28));

    let input = "HALT";
    assert_eq!(spans(input), vec![(0, 4)]);
}

#[test]
fn program() {
    let src = "# .data bla
.data
label: .block 9
.instructions
# bla:
ADD $t0, $t1, $t2";

    let (executable, map) = vcpu::assembler::assemble(src.as_bytes()).unwrap();
    assert_eq!(executable.data().len(), 9);
    assert_eq!(executable.instructions().len(), 4);
    assert_eq!(map.len(), 1);
    assert_eq!(map[0].start_line, 6);
}

#[test]
fn trailing_label_is_rejected() {
    // a label must be followed by an instruction; one at the very end
    // of the instructions section binds nothing and is a syntax error
    let src = ".data\n.instructions\nADD $t0, $t1, $t2\nend:";
    let err = vcpu::assembler::assemble(src.as_bytes()).unwrap_err();
    assert_eq!(err.kind, vcpu::assembler::AssembleError::Syntax);

    // the same label followed by an instruction is fine
    let src = ".data\n.instructions\nADD $t0, $t1, $t2\nend: HALT";
    let (executable, _) = vcpu::assembler::assemble(src.as_bytes()).unwrap();
    assert_eq!(executable.instructions().len(), 8);
}
