//! The data pass: walks the `.data` section, reserving `.block` space
//! and emitting `.byte`/`.half`/`.word` integer lists as little-endian
//! bytes, and binds each `label:` to the byte offset of the element
//! that follows it.

use vstd::prelude::*;

use crate::assembler::int_util::{process_int, process_uint, spec_int_bits, spec_uint};
use crate::assembler::labels::LabelMap;
use crate::assembler::lexer::{token_wf, Directive, Token, TokenKind};
use crate::assembler::{AssembleError, Error};
use crate::executable::copy_bytes;

verus! {

/// The data section may hold at most this many bytes.
pub const DATA_MAX: u32 = 0xFFFF_FFFE;

/// Appends the low `width/8` bytes of a 32-bit pattern, little-endian.
fn push_low_bytes(data: &mut Vec<u8>, bits: u32, width: u32)
    requires
        width == 8 || width == 16 || width == 32,
    ensures
        final(data)@.len() == old(data)@.len() + width / 8,
        final(data)@ =~= old(data)@ + crate::endian::le_bytes(bits as nat, (width / 8) as nat),
{
    proof {
        reveal_with_fuel(crate::endian::le_bytes, 5);
    }
    data.push((bits % 0x100) as u8);
    if width >= 16 {
        data.push(((bits / 0x100) % 0x100) as u8);
    }
    if width == 32 {
        data.push(((bits / 0x1_0000) % 0x100) as u8);
        data.push(((bits / 0x100_0000) % 0x100) as u8);
    }
}


/// The data section's walk from `tokens[pos]`, with the bytes and
/// labels collected so far. With `pending == Some(width)` the walk is
/// inside a `.byte`/`.half`/`.word` integer list and expects an integer
/// of that width, whose low bytes it appends little-endian, continuing
/// the list over a comma; with `pending == None` it expects a labeled
/// element: a `label:` binds the current byte offset, `.block N`
/// appends `N` zero bytes, an integer-list directive opens a list, and
/// the walk ends at the `.instructions` directive or the end of the
/// tokens. `None` where an element is malformed, a literal does not fit
/// its place, or the section would exceed [`DATA_MAX`].
pub open spec fn spec_data_walk(
    input: Seq<u8>,
    tokens: Seq<Token>,
    pos: int,
    data: Seq<u8>,
    labels: Seq<(Seq<u8>, u32)>,
    pending: Option<u32>,
) -> Option<(int, Seq<u8>, Seq<(Seq<u8>, u32)>)>
    decreases tokens.len() - pos, 1int,
    when 0 <= pos
{
    match pending {
        Some(width) => {
            if pos >= tokens.len() {
                None
            } else if !(tokens[pos].kind is Int) {
                None
            } else {
                match spec_int_bits(input, tokens[pos].kind, width) {
                    Err(_) => None,
                    Ok(bits) => {
                        if data.len() > DATA_MAX - width / 8 {
                            None
                        } else {
                            let grown = data + crate::endian::le_bytes(
                                bits as nat,
                                (width / 8) as nat,
                            );
                            if pos + 1 < tokens.len() && tokens[pos + 1].kind
                                == TokenKind::Comma {
                                spec_data_walk(input, tokens, pos + 2, grown, labels, Some(width))
                            } else {
                                spec_data_walk(input, tokens, pos + 1, grown, labels, None)
                            }
                        }
                    },
                }
            }
        },
        None => spec_data_idle(input, tokens, pos, data, labels),
    }
}

/// One labeled element of the data walk, outside any integer list.
pub open spec fn spec_data_idle(
    input: Seq<u8>,
    tokens: Seq<Token>,
    pos: int,
    data: Seq<u8>,
    labels: Seq<(Seq<u8>, u32)>,
) -> Option<(int, Seq<u8>, Seq<(Seq<u8>, u32)>)>
    decreases tokens.len() - pos, 0int,
    when 0 <= pos
{
    if pos >= tokens.len() {
        Some((pos, data, labels))
    } else {
        let tok = tokens[pos];
        match tok.kind {
            TokenKind::Ident => {
                if pos + 1 < tokens.len() && tokens[pos + 1].kind == TokenKind::Colon {
                    let name = input.subrange(tok.span.start as int, tok.span.end as int);
                    spec_data_walk(
                        input,
                        tokens,
                        pos + 2,
                        data,
                        seq![(name, data.len() as u32)] + labels,
                        None,
                    )
                } else {
                    None
                }
            },
            TokenKind::Directive(d) => {
                if d == Directive::Instructions {
                    Some((pos, data, labels))
                } else if d == Directive::Block {
                    if pos + 1 >= tokens.len() {
                        None
                    } else {
                        match crate::assembler::int_util::spec_uint(
                            input,
                            tokens[pos + 1].kind,
                            0xFFFF_FFFF,
                        ) {
                            None => None,
                            Some(size) => {
                                if size > DATA_MAX || data.len() > DATA_MAX - size {
                                    None
                                } else {
                                    spec_data_walk(
                                        input,
                                        tokens,
                                        pos + 2,
                                        data + Seq::new(size as nat, |k: int| 0u8),
                                        labels,
                                        None,
                                    )
                                }
                            },
                        }
                    }
                } else {
                    let width: u32 = if d == Directive::Byte {
                        8
                    } else if d == Directive::Half {
                        16
                    } else if d == Directive::Word {
                        32
                    } else {
                        0
                    };
                    if width == 0 {
                        None
                    } else {
                        spec_data_walk(input, tokens, pos + 1, data, labels, Some(width))
                    }
                }
            },
            _ => None,
        }
    }
}

/// The whole data pass: the section must open with the `.data`
/// directive, then its elements follow.
pub open spec fn spec_data(input: Seq<u8>, tokens: Seq<Token>, pos: int) -> Option<
    (int, Seq<u8>, Seq<(Seq<u8>, u32)>),
> {
    if 0 <= pos < tokens.len() && tokens[pos].kind == TokenKind::Directive(Directive::Data) {
        spec_data_walk(input, tokens, pos + 1, Seq::empty(), Seq::empty(), None)
    } else {
        None
    }
}

/// The transitions of the data walk, one equation per element shape:
/// what one step of [`spec_data_walk`] does at the current position.
proof fn lemma_walk_step(
    input: Seq<u8>,
    tokens: Seq<Token>,
    pos: int,
    data: Seq<u8>,
    labels: Seq<(Seq<u8>, u32)>,
    width: u32,
)
    requires
        0 <= pos < tokens.len(),
    ensures
        tokens[pos].kind == TokenKind::Directive(Directive::Instructions) ==> spec_data_walk(
            input,
            tokens,
            pos,
            data,
            labels,
            None,
        ) == Some((pos, data, labels)),
        (tokens[pos].kind == TokenKind::Ident && pos + 1 < tokens.len() && tokens[pos + 1].kind
            == TokenKind::Colon) ==> spec_data_walk(input, tokens, pos, data, labels, None)
            == spec_data_walk(
            input,
            tokens,
            pos + 2,
            data,
            seq![
                (
                    input.subrange(tokens[pos].span.start as int, tokens[pos].span.end as int),
                    data.len() as u32,
                ),
            ] + labels,
            None,
        ),
        (tokens[pos].kind == TokenKind::Ident && !(pos + 1 < tokens.len() && tokens[pos + 1].kind
            == TokenKind::Colon)) ==> spec_data_walk(input, tokens, pos, data, labels, None)
            is None,
        (tokens[pos].kind == TokenKind::Directive(Directive::Block) && pos + 1 >= tokens.len())
            ==> spec_data_walk(input, tokens, pos, data, labels, None) is None,
        (tokens[pos].kind == TokenKind::Directive(Directive::Block) && pos + 1 < tokens.len()
            && crate::assembler::int_util::spec_uint(input, tokens[pos + 1].kind, 0xFFFF_FFFF)
            is None) ==> spec_data_walk(input, tokens, pos, data, labels, None) is None,
        (tokens[pos].kind == TokenKind::Directive(Directive::Block) && pos + 1 < tokens.len())
            ==> (crate::assembler::int_util::spec_uint(input, tokens[pos + 1].kind, 0xFFFF_FFFF)
            matches Some(size) ==> (if size > DATA_MAX || data.len() > DATA_MAX - size {
            spec_data_walk(input, tokens, pos, data, labels, None) is None
        } else {
            spec_data_walk(input, tokens, pos, data, labels, None) == spec_data_walk(
                input,
                tokens,
                pos + 2,
                data + Seq::new(size as nat, |k: int| 0u8),
                labels,
                None,
            )
        })),
        ((tokens[pos].kind == TokenKind::Directive(Directive::Byte) && width == 8) || (tokens[
            pos].kind == TokenKind::Directive(Directive::Half) && width == 16) || (tokens[pos].kind
            == TokenKind::Directive(Directive::Word) && width == 32)) ==> spec_data_walk(
            input,
            tokens,
            pos,
            data,
            labels,
            None,
        ) == spec_data_walk(input, tokens, pos + 1, data, labels, Some(width)),
        tokens[pos].kind == TokenKind::Directive(Directive::Data) ==> spec_data_walk(
            input,
            tokens,
            pos,
            data,
            labels,
            None,
        ) is None,
        (tokens[pos].kind == TokenKind::Comma || tokens[pos].kind == TokenKind::Colon || tokens[
            pos].kind == TokenKind::LParen || tokens[pos].kind == TokenKind::RParen || tokens[
            pos].kind is Register || tokens[pos].kind is Int) ==> spec_data_walk(
            input,
            tokens,
            pos,
            data,
            labels,
            None,
        ) is None,
        !(tokens[pos].kind is Int) ==> spec_data_walk(input, tokens, pos, data, labels, Some(width))
            is None,
        (tokens[pos].kind is Int && spec_int_bits(input, tokens[pos].kind, width) is Err)
            ==> spec_data_walk(input, tokens, pos, data, labels, Some(width)) is None,
        tokens[pos].kind is Int ==> (spec_int_bits(input, tokens[pos].kind, width) matches Ok(bits)
            ==> (if data.len() > DATA_MAX - width / 8 {
            spec_data_walk(input, tokens, pos, data, labels, Some(width)) is None
        } else if pos + 1 < tokens.len() && tokens[pos + 1].kind == TokenKind::Comma {
            spec_data_walk(input, tokens, pos, data, labels, Some(width)) == spec_data_walk(
                input,
                tokens,
                pos + 2,
                data + crate::endian::le_bytes(bits as nat, (width / 8) as nat),
                labels,
                Some(width),
            )
        } else {
            spec_data_walk(input, tokens, pos, data, labels, Some(width)) == spec_data_walk(
                input,
                tokens,
                pos + 1,
                data + crate::endian::le_bytes(bits as nat, (width / 8) as nat),
                labels,
                None,
            )
        })),
{
    reveal_with_fuel(spec_data_walk, 2);
    reveal_with_fuel(spec_data_idle, 2);
}

/// Walks the `.data` section from `tokens[*pos]`: it must open with the
/// `.data` directive, then any number of optionally labeled elements
/// follow until the `.instructions` directive or the end of input.
/// Returns the emitted bytes and the data labels, each bound to the
/// byte offset of the element after it; the cursor is left on the first
/// token the section does not consume. Fails on a malformed element, an
/// out-of-range literal, or a section over [`DATA_MAX`] bytes.
pub fn process_data(input: &[u8], tokens: &Vec<Token>, pos: &mut usize) -> (r: Result<
    (Vec<u8>, LabelMap),
    Error,
>)
    requires
        forall|j: int| 0 <= j < tokens@.len() ==> token_wf(#[trigger] tokens@[j], input@.len()),
        *old(pos) <= tokens@.len(),
    ensures
        *final(pos) <= tokens@.len(),
        r matches Ok(d) ==> spec_data(input@, tokens@, *old(pos) as int) == Some(
            (*final(pos) as int, d.0@, d.1@),
        ),
        r is Err ==> spec_data(input@, tokens@, *old(pos) as int) is None,
        r matches Ok(d) ==> d.0@.len() <= DATA_MAX && (forall|n: Seq<u8>|
            (#[trigger] crate::assembler::labels::spec_get(d.1@, n)) matches Some(v) ==> v
                <= d.0@.len()),
{
    let ghost p0 = *old(pos) as int;
    let end_span = crate::assembler::Span { start: input.len(), end: input.len(), line: 1, end_line: 1 };
    let n = tokens.len();
    if *pos >= n {
        return Err(Error { kind: AssembleError::Syntax, span: end_span });
    }
    let opening = tokens[*pos];
    match opening.kind {
        TokenKind::Directive(Directive::Data) => {},
        _ => {
            return Err(Error { kind: AssembleError::Syntax, span: opening.span });
        },
    }
    *pos = *pos + 1;
    let mut data: Vec<u8> = Vec::new();
    let mut labels = LabelMap::new();
    proof {
        assert(labels@ =~= Seq::<(Seq<u8>, u32)>::empty());
        assert(spec_data(input@, tokens@, p0) == spec_data_walk(
            input@,
            tokens@,
            p0 + 1,
            data@,
            labels@,
            None,
        ));
    }
    while *pos < n
        invariant
            forall|j: int| 0 <= j < tokens@.len() ==> token_wf(#[trigger] tokens@[j], input@.len()),
            n == tokens@.len(),
            *pos <= n,
            p0 == *old(pos) as int,
            data@.len() <= DATA_MAX,
            spec_data(input@, tokens@, p0) == spec_data_walk(
                input@,
                tokens@,
                *pos as int,
                data@,
                labels@,
                None,
            ),
            forall|nm: Seq<u8>|
                (#[trigger] crate::assembler::labels::spec_get(labels@, nm)) matches Some(v) ==> v
                    <= data@.len(),
        decreases n - *pos,
    {
        proof {
            lemma_walk_step(input@, tokens@, *pos as int, data@, labels@, 8);
        }
        let tok = tokens[*pos];
        match tok.kind {
            TokenKind::Directive(Directive::Instructions) => {
                return Ok((data, labels));
            },
            TokenKind::Ident => {
                // a label binding the offset of the next element
                if *pos + 1 < n {
                    let colon = tokens[*pos + 1];
                    if colon.kind == TokenKind::Colon {
                        let name = copy_bytes(input, tok.span.start, tok.span.end - tok.span.start);
                        proof {
                            assert(name@ == input@.subrange(
                                tok.span.start as int,
                                tok.span.end as int,
                            ));
                        }
                        labels.insert(name, data.len() as u32);
                        *pos = *pos + 2;
                        proof {
                            assert(spec_data(input@, tokens@, p0) == spec_data_walk(
                                input@,
                                tokens@,
                                *pos as int,
                                data@,
                                labels@,
                                None,
                            ));
                        }
                    } else {
                        return Err(Error { kind: AssembleError::Syntax, span: tok.span });
                    }
                } else {
                    return Err(Error { kind: AssembleError::Syntax, span: tok.span });
                }
            },
            TokenKind::Directive(d) => {
                let width: u32 = match d {
                    Directive::Byte => 8,
                    Directive::Half => 16,
                    Directive::Word => 32,
                    _ => 0,
                };
                if width == 0 && d != Directive::Block {
                    return Err(Error { kind: AssembleError::Syntax, span: tok.span });
                }
                proof {
                    lemma_walk_step(input@, tokens@, *pos as int, data@, labels@, width);
                }
                *pos = *pos + 1;
                if d == Directive::Block {
                    if *pos >= n {
                        return Err(Error { kind: AssembleError::Syntax, span: tok.span });
                    }
                    let ghost data0 = data@;
                    let size_tok = tokens[*pos];
                    match size_tok.kind {
                        TokenKind::Int { .. } => {},
                        _ => {
                            proof {
                                assert(spec_uint(input@, size_tok.kind, 0xFFFF_FFFF) is None);
                            }
                            return Err(Error { kind: AssembleError::Syntax, span: size_tok.span });
                        },
                    }
                    let size = match process_uint(input, &size_tok, 0xFFFF_FFFF) {
                        Ok(v) => v,
                        Err(e) => {
                            return Err(e);
                        },
                    };
                    *pos = *pos + 1;
                    if size > DATA_MAX as u64 || data.len() as u64 > (DATA_MAX as u64) - size {
                        return Err(Error { kind: AssembleError::DataTooLarge, span: size_tok.span });
                    }
                    let new_size = data.len() + size as usize;
                    data.resize(new_size, 0u8);
                    proof {
                        assert(data@ =~= data0 + Seq::new(size as nat, |k: int| 0u8));
                        assert(spec_data(input@, tokens@, p0) == spec_data_walk(
                            input@,
                            tokens@,
                            *pos as int,
                            data@,
                            labels@,
                            None,
                        ));
                    }
                } else {
                    // an integer list: one element per iteration
                    proof {
                        assert(spec_data(input@, tokens@, p0) == spec_data_walk(
                            input@,
                            tokens@,
                            *pos as int,
                            data@,
                            labels@,
                            Some(width),
                        ));
                    }
                    let ghost list_start = *pos as int;
                    loop
                        invariant_except_break
                            spec_data(input@, tokens@, p0) == spec_data_walk(
                                input@,
                                tokens@,
                                *pos as int,
                                data@,
                                labels@,
                                Some(width),
                            ),
                        invariant
                            list_start <= *pos as int,
                            forall|j: int|
                                0 <= j < tokens@.len() ==> token_wf(
                                    #[trigger] tokens@[j],
                                    input@.len(),
                                ),
                            n == tokens@.len(),
                            *pos <= n,
                            p0 == *old(pos) as int,
                            data@.len() <= DATA_MAX,
                            width == 8 || width == 16 || width == 32,
                            forall|nm: Seq<u8>|
                                (#[trigger] crate::assembler::labels::spec_get(
                                    labels@,
                                    nm,
                                )) matches Some(v) ==> v <= data@.len(),
                        ensures
                            spec_data(input@, tokens@, p0) == spec_data_walk(
                                input@,
                                tokens@,
                                *pos as int,
                                data@,
                                labels@,
                                None,
                            ),
                        decreases n - *pos,
                    {
                        if *pos >= n {
                            proof {
                                assert(spec_data_walk(
                                    input@,
                                    tokens@,
                                    *pos as int,
                                    data@,
                                    labels@,
                                    Some(width),
                                ) is None);
                            }
                            return Err(Error { kind: AssembleError::Syntax, span: end_span });
                        }
                        proof {
                            lemma_walk_step(input@, tokens@, *pos as int, data@, labels@, width);
                        }
                        let int_tok = tokens[*pos];
                        match int_tok.kind {
                            TokenKind::Int { .. } => {},
                            _ => {
                                return Err(
                                    Error { kind: AssembleError::Syntax, span: int_tok.span },
                                );
                            },
                        }
                        let bits = match process_int(input, &int_tok, width) {
                            Ok(v) => v,
                            Err(e) => {
                                return Err(e);
                            },
                        };
                        if data.len() as u64 > (DATA_MAX as u64) - (width / 8) as u64 {
                            return Err(
                                Error { kind: AssembleError::DataTooLarge, span: int_tok.span },
                            );
                        }
                        let ghost before_push = data@;
                        push_low_bytes(&mut data, bits, width);
                        *pos = *pos + 1;
                        if *pos < n && tokens[*pos].kind == TokenKind::Comma {
                            *pos = *pos + 1;
                            proof {
                                assert(spec_data(input@, tokens@, p0) == spec_data_walk(
                                    input@,
                                    tokens@,
                                    *pos as int,
                                    data@,
                                    labels@,
                                    Some(width),
                                ));
                            }
                        } else {
                            proof {
                                assert(spec_data(input@, tokens@, p0) == spec_data_walk(
                                    input@,
                                    tokens@,
                                    *pos as int,
                                    data@,
                                    labels@,
                                    None,
                                ));
                            }
                            break;
                        }
                    }
                }
            },
            _ => {
                return Err(Error { kind: AssembleError::Syntax, span: tok.span });
            },
        }
    }
    proof {
        reveal_with_fuel(spec_data_walk, 2);
        assert(spec_data_walk(input@, tokens@, *pos as int, data@, labels@, None) == Some(
            (*pos as int, data@, labels@),
        ));
    }
    Ok((data, labels))
}

} // verus!
