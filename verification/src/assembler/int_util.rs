//! Integer literal handling: radix digits to values, with the
//! width-truncating cast policy of the assembly language. Unsigned
//! literals (`0x…`, `0o…`, `0b…`) parse as the unsigned integer of the
//! target width and are reinterpreted, not range-checked, when the
//! target is signed; decimal literals are parsed as signed values.

use vstd::prelude::*;

use crate::assembler::lexer::{token_wf, Token, TokenKind};
use crate::assembler::{AssembleError, Error};

verus! {

/// The numeric value of one ASCII digit, or 255 for a byte that is no
/// digit in any radix up to sixteen.
pub open spec fn digit_val(c: u8) -> u32 {
    if 48 <= c <= 57 {
        (c - 48) as u32
    } else if 97 <= c <= 102 {
        (c - 87) as u32
    } else if 65 <= c <= 70 {
        (c - 55) as u32
    } else {
        255
    }
}

/// The value of a digit string read in the given radix, most
/// significant digit first.
pub open spec fn digits_value(s: Seq<u8>, radix: u32) -> nat
    decreases s.len(),
{
    if s.len() == 0 {
        0
    } else {
        (digits_value(s.drop_last(), radix) * radix + digit_val(s.last())) as nat
    }
}

/// Whether every byte of the string is a digit of the radix.
pub open spec fn valid_digits(s: Seq<u8>, radix: u32) -> bool {
    forall|k: int| 0 <= k < s.len() ==> digit_val(#[trigger] s[k]) < radix
}

/// The numeric value of one ASCII digit, as executable code.
fn digit_value(c: u8) -> (r: u32)
    ensures
        r == digit_val(c),
{
    if 48 <= c && c <= 57 {
        (c - 48) as u32
    } else if 97 <= c && c <= 102 {
        (c - 87) as u32
    } else if 65 <= c && c <= 70 {
        (c - 55) as u32
    } else {
        255
    }
}

/// Reads the digit string `input[start..end]` in the given radix.
/// Returns its value exactly when every byte is a digit of the radix
/// and the value does not exceed `max`; fails otherwise.
pub fn parse_digits(input: &[u8], start: usize, end: usize, radix: u32, max: u64) -> (r: Result<
    u64,
    (),
>)
    requires
        start <= end <= input@.len(),
        2 <= radix <= 16,
        max <= 0xFFFF_FFFF,
    ensures
        ({
            let s = input@.subrange(start as int, end as int);
            match r {
                Ok(v) => valid_digits(s, radix) && v == digits_value(s, radix) && v <= max,
                Err(()) => !valid_digits(s, radix) || digits_value(s, radix) > max,
            }
        }),
{
    let n = input.len();
    let ghost s = input@.subrange(start as int, end as int);
    let mut acc: u64 = 0;
    let mut i: usize = start;
    while i < end
        invariant
            start <= i <= end <= n == input@.len(),
            2 <= radix <= 16,
            max <= 0xFFFF_FFFF,
            s == input@.subrange(start as int, end as int),
            valid_digits(input@.subrange(start as int, i as int), radix),
            acc == digits_value(input@.subrange(start as int, i as int), radix),
            acc <= max,
        decreases end - i,
    {
        let c = input[i];
        let d = digit_value(c);
        proof {
            assert(input@.subrange(start as int, i + 1).drop_last() =~= input@.subrange(
                start as int,
                i as int,
            ));
            assert(input@.subrange(start as int, i + 1).last() == input@[i as int]);
        }
        if d >= radix {
            proof {
                assert(s[i - start] == input@[i as int]);
                assert(!valid_digits(s, radix));
            }
            return Err(());
        }
        proof {
            assert(acc * (radix as u64) <= 0xFFFF_FFFFu64 * 16) by (nonlinear_arith)
                requires
                    acc <= 0xFFFF_FFFF,
                    radix <= 16,
            ;
        }
        let next = acc * (radix as u64) + (d as u64);
        if next > max {
            proof {
                lemma_digits_value_monotonic(s, radix, (i + 1 - start) as int);
                assert(input@.subrange(start as int, i + 1) =~= s.subrange(0, i + 1 - start));
            }
            return Err(());
        }
        acc = next;
        i = i + 1;
    }
    proof {
        assert(input@.subrange(start as int, end as int) =~= input@.subrange(
            start as int,
            end as int,
        ));
    }
    Ok(acc)
}

/// The value of a digit string is at least the value of any of its
/// prefixes.
proof fn lemma_digits_value_monotonic(s: Seq<u8>, radix: u32, p: int)
    requires
        2 <= radix,
        0 <= p <= s.len(),
    ensures
        digits_value(s, radix) >= digits_value(s.subrange(0, p), radix),
    decreases s.len() - p,
{
    if p < s.len() {
        lemma_digits_value_monotonic(s, radix, p + 1);
        let longer = s.subrange(0, p + 1);
        let shorter = s.subrange(0, p);
        assert(longer.drop_last() =~= shorter);
        assert(digits_value(longer, radix) == digits_value(shorter, radix) * radix + digit_val(
            longer.last(),
        ));
        assert(digits_value(shorter, radix) * radix >= digits_value(shorter, radix) * 1)
            by (nonlinear_arith)
            requires
                radix >= 1,
                digits_value(shorter, radix) >= 0,
        ;
    } else {
        assert(s.subrange(0, p) =~= s);
    }
}


/// A value below `2^width` sign-extended from `width` bits to 32.
pub open spec fn sign_extend_width(v: nat, width: u32) -> u32
    recommends
        width == 8 || width == 16 || width == 32,
        v < pow2_width(width),
{
    if width == 8 {
        if v < 0x80 {
            v as u32
        } else {
            (v + 0xFFFF_FF00) as u32
        }
    } else if width == 16 {
        if v < 0x8000 {
            v as u32
        } else {
            (v + 0xFFFF_0000) as u32
        }
    } else {
        v as u32
    }
}

/// `2^width` for the three element widths.
pub open spec fn pow2_width(width: u32) -> nat {
    if width == 8 {
        0x100
    } else if width == 16 {
        0x1_0000
    } else {
        0x1_0000_0000
    }
}

/// The value an integer token denotes in an unsigned position of
/// capacity `max`: the literal may not carry a sign, its digits must
/// fit the radix, and its value may not exceed `max`.
pub open spec fn spec_uint(input: Seq<u8>, kind: TokenKind, max: u64) -> Option<u64> {
    let (negative, radix, ds, de) = spec_int_parts(kind);
    let digits = input.subrange(ds, de);
    if !(kind is Int) || negative || !valid_digits(digits, radix) || digits_value(digits, radix)
        > max {
        None
    } else {
        Some(digits_value(digits, radix) as u64)
    }
}

/// Parses an integer token in an unsigned position: exactly
/// [`spec_uint`].
pub fn process_uint(input: &[u8], tok: &Token, max: u64) -> (r: Result<u64, Error>)
    requires
        token_wf(*tok, input@.len()),
        tok.kind is Int,
        max <= 0xFFFF_FFFF,
    ensures
        match r {
            Ok(v) => spec_uint(input@, tok.kind, max) == Some(v),
            Err(e) => spec_uint(input@, tok.kind, max) is None,
        },
{
    match tok.kind {
        TokenKind::Int { negative, radix, digits_start, digits_end } => {
            if negative {
                return Err(Error { kind: AssembleError::Syntax, span: tok.span });
            }
            match parse_digits(input, digits_start, digits_end, radix, max) {
                Ok(v) => Ok(v),
                Err(()) => Err(Error { kind: AssembleError::IntOutOfRange, span: tok.span }),
            }
        },
        _ => Err(Error { kind: AssembleError::Syntax, span: tok.span }),
    }
}

/// The sign, radix and digit range of an integer token.
pub open spec fn spec_int_parts(kind: TokenKind) -> (bool, u32, int, int) {
    match kind {
        TokenKind::Int { negative, radix, digits_start, digits_end } => (
            negative,
            radix,
            digits_start as int,
            digits_end as int,
        ),
        _ => (false, 10, 0, 0),
    }
}

/// The 32-bit pattern an integer token denotes in a signed position of
/// the given width: a decimal literal must lie in the signed range of
/// the width; a radix-prefixed literal is parsed as the unsigned
/// integer of the width and reinterpreted, so its high bit becomes the
/// sign. The pattern is sign-extended to 32 bits.
pub open spec fn spec_int_bits(input: Seq<u8>, kind: TokenKind, width: u32) -> Result<u32, ()> {
    let (negative, radix, ds, de) = spec_int_parts(kind);
    let digits = input.subrange(ds, de);
    let v = digits_value(digits, radix);
    if !valid_digits(digits, radix) {
        Err(())
    } else if negative {
        if v <= pow2_width(width) / 2 {
            Ok(crate::processor::logic::wrap32(-(v as int)))
        } else {
            Err(())
        }
    } else if radix == 10 {
        if v < pow2_width(width) / 2 {
            Ok(v as u32)
        } else {
            Err(())
        }
    } else {
        if v < pow2_width(width) {
            Ok(sign_extend_width(v, width))
        } else {
            Err(())
        }
    }
}

/// Parses an integer token in a signed position of the given width,
/// yielding the sign-extended 32-bit pattern fixed by [`spec_int_bits`].
pub fn process_int(input: &[u8], tok: &Token, width: u32) -> (r: Result<u32, Error>)
    requires
        token_wf(*tok, input@.len()),
        tok.kind is Int,
        width == 8 || width == 16 || width == 32,
    ensures
        match r {
            Ok(bits) => spec_int_bits(input@, tok.kind, width) == Ok::<u32, ()>(bits),
            Err(e) => spec_int_bits(input@, tok.kind, width) is Err,
        },
{
    match tok.kind {
        TokenKind::Int { negative, radix, digits_start, digits_end } => {
            let half: u64 = if width == 8 {
                0x80
            } else if width == 16 {
                0x8000
            } else {
                0x8000_0000
            };
            if negative {
                match parse_digits(input, digits_start, digits_end, radix, half) {
                    Ok(v) => {
                        let bits = if v == 0 {
                            0u32
                        } else {
                            (0x1_0000_0000u64 - v) as u32
                        };
                        proof {
                            let digits = input@.subrange(digits_start as int, digits_end as int);
                            let val = digits_value(digits, radix) as int;
                            if val > 0 {
                                assert(crate::processor::logic::wrap32(-val) == (0x1_0000_0000
                                    - val) as u32) by {
                                    vstd::arithmetic::div_mod::lemma_mod_multiples_vanish(
                                        1,
                                        -val,
                                        0x1_0000_0000,
                                    );
                                }
                            } else {
                                assert(crate::processor::logic::wrap32(0int) == 0) by {
                                    vstd::arithmetic::div_mod::lemma_small_mod(
                                        0nat,
                                        0x1_0000_0000,
                                    );
                                }
                            }
                        }
                        Ok(bits)
                    },
                    Err(()) => Err(Error { kind: AssembleError::IntOutOfRange, span: tok.span }),
                }
            } else if radix == 10 {
                match parse_digits(input, digits_start, digits_end, radix, half - 1) {
                    Ok(v) => Ok(v as u32),
                    Err(()) => Err(Error { kind: AssembleError::IntOutOfRange, span: tok.span }),
                }
            } else {
                let full_max: u64 = if width == 8 {
                    0xFF
                } else if width == 16 {
                    0xFFFF
                } else {
                    0xFFFF_FFFF
                };
                match parse_digits(input, digits_start, digits_end, radix, full_max) {
                    Ok(v) => {
                        let bits: u32 = if width == 8 && v >= 0x80 {
                            (v as u32) + 0xFFFF_FF00
                        } else if width == 16 && v >= 0x8000 {
                            (v as u32) + 0xFFFF_0000
                        } else {
                            v as u32
                        };
                        Ok(bits)
                    },
                    Err(()) => Err(Error { kind: AssembleError::IntOutOfRange, span: tok.span }),
                }
            }
        },
        _ => Err(Error { kind: AssembleError::Syntax, span: tok.span }),
    }
}

} // verus!
