//! Little-endian encoding of unsigned integers into byte sequences.
//! Every multi-byte value of the machine — in memory, in the instruction
//! stream, and in the executable container — uses this encoding.

use vstd::prelude::*;

verus! {

/// The value of a byte sequence read as a little-endian unsigned
/// integer: the first byte is least significant.
pub open spec fn le_value(s: Seq<u8>) -> nat
    decreases s.len(),
{
    if s.len() == 0 {
        0
    } else {
        (s[0] + 256 * le_value(s.subrange(1, s.len() as int))) as nat
    }
}

/// The `size`-byte little-endian encoding of `value % 256^size`.
pub open spec fn le_bytes(value: nat, size: nat) -> Seq<u8>
    decreases size,
{
    if size == 0 {
        Seq::empty()
    } else {
        seq![(value % 256) as u8] + le_bytes(value / 256, (size - 1) as nat)
    }
}

/// `256^e`.
pub open spec fn pow256(e: nat) -> nat
    decreases e,
{
    if e == 0 {
        1
    } else {
        256 * pow256((e - 1) as nat)
    }
}

/// `256^e` is positive.
pub proof fn lemma_pow256_pos(e: nat)
    ensures
        pow256(e) >= 1,
    decreases e,
{
    if e > 0 {
        lemma_pow256_pos((e - 1) as nat);
    }
}

/// The concrete powers used for one- to four-byte accesses.
pub proof fn lemma_pow256_values()
    ensures
        pow256(0) == 1,
        pow256(1) == 0x100,
        pow256(2) == 0x1_0000,
        pow256(3) == 0x100_0000,
        pow256(4) == 0x1_0000_0000,
{
    reveal_with_fuel(pow256, 5);
}

/// A sequence of `n` bytes encodes a value below `256^n`.
pub proof fn lemma_le_value_bound(s: Seq<u8>)
    ensures
        le_value(s) < pow256(s.len()),
    decreases s.len(),
{
    if s.len() > 0 {
        lemma_le_value_bound(s.subrange(1, s.len() as int));
    }
}

/// An encoding has the requested length, and decodes back to the encoded
/// value reduced modulo `256^size`.
pub proof fn lemma_le_bytes_value(value: nat, size: nat)
    ensures
        le_bytes(value, size).len() == size,
        le_value(le_bytes(value, size)) == value % pow256(size),
    decreases size,
{
    if size > 0 {
        lemma_le_bytes_value(value / 256, (size - 1) as nat);
        lemma_pow256_pos((size - 1) as nat);
        let s = le_bytes(value, size);
        assert(s.subrange(1, s.len() as int) =~= le_bytes(value / 256, (size - 1) as nat));
        assert(value % (256 * pow256((size - 1) as nat)) == value % 256 + 256 * (value / 256 % pow256(
            (size - 1) as nat,
        ))) by {
            vstd::arithmetic::div_mod::lemma_breakdown(
                value as int,
                256,
                pow256((size - 1) as nat) as int,
            );
        }
    }
}

/// Encoding the value of a sequence reproduces the sequence.
pub proof fn lemma_le_bytes_roundtrip(s: Seq<u8>)
    ensures
        le_bytes(le_value(s), s.len()) =~= s,
    decreases s.len(),
{
    if s.len() > 0 {
        let tail = s.subrange(1, s.len() as int);
        lemma_le_bytes_roundtrip(tail);
        lemma_le_value_bound(tail);
        assert((s[0] + 256 * le_value(tail)) % 256 == s[0] && (s[0] + 256 * le_value(tail)) / 256
            == le_value(tail)) by {
            vstd::arithmetic::div_mod::lemma_div_multiples_vanish_fancy(
                le_value(tail) as int,
                s[0] as int,
                256,
            );
            vstd::arithmetic::div_mod::lemma_mod_multiples_vanish(le_value(tail) as int, s[0] as int, 256);
        }
    }
}

/// Reads `size` bytes at `offset` as a little-endian unsigned integer,
/// zero-padded to 32 bits.
pub fn read_le(bytes: &[u8], offset: usize, size: usize) -> (r: u32)
    requires
        1 <= size <= 4,
        offset + size <= bytes@.len(),
    ensures
        r == le_value(bytes@.subrange(offset as int, offset + size)),
{
    let n = bytes.len();
    let mut r: u32 = 0;
    let mut i: usize = size;
    while i > 0
        invariant
            i <= size,
            1 <= size <= 4,
            offset + size <= n == bytes@.len(),
            r == le_value(bytes@.subrange(offset + i, offset + size)),
        decreases i,
    {
        proof {
            let whole = bytes@.subrange(offset + i - 1, offset + size);
            assert(whole.subrange(1, whole.len() as int) =~= bytes@.subrange(
                offset + i,
                offset + size,
            ));
            lemma_le_value_bound(bytes@.subrange(offset + i, offset + size));
            lemma_pow256_monotonic((size - i) as nat, 3);
            lemma_pow256_values();
        }
        i = i - 1;
        r = r * 256 + (bytes[offset + i] as u32);
    }
    proof {
        assert(bytes@.subrange(offset as int, offset + size) =~= bytes@.subrange(
            offset + 0,
            offset + size,
        ));
    }
    r
}

/// Writes the `size`-byte little-endian encoding of `value` at `offset`,
/// leaving every other byte and the length unchanged.
pub fn write_le(bytes: &mut Vec<u8>, offset: usize, size: usize, value: u32)
    requires
        1 <= size <= 4,
        offset + size <= old(bytes)@.len(),
    ensures
        final(bytes)@.len() == old(bytes)@.len(),
        final(bytes)@.subrange(offset as int, offset + size) =~= le_bytes(value as nat, size as nat),
        forall|j: int|
            0 <= j < old(bytes)@.len() && !(offset <= j < offset + size) ==> final(bytes)@[j]
                == old(bytes)@[j],
{
    proof {
        lemma_pow256_values();
    }
    let n = bytes.len();
    let mut v: u32 = value;
    let mut i: usize = 0;
    while i < size
        invariant
            i <= size,
            1 <= size <= 4,
            offset + size <= n == bytes@.len(),
            bytes@.len() == old(bytes)@.len(),
            v == value as nat / pow256(i as nat),
            bytes@.subrange(offset as int, offset + i) =~= le_bytes(value as nat, i as nat),
            forall|j: int|
                0 <= j < old(bytes)@.len() && !(offset <= j < offset + i) ==> bytes@[j] == old(
                    bytes,
                )@[j],
        decreases size - i,
    {
        let ghost prev = bytes@;
        let b: u8 = (v % 256) as u8;
        bytes[offset + i] = b;
        v = v / 256;
        i = i + 1;
        proof {
            lemma_le_bytes_snoc(value as nat, (i - 1) as nat);
            assert(bytes@.subrange(offset as int, offset + i) =~= prev.subrange(
                offset as int,
                offset + i - 1,
            ).push(b));
            lemma_pow256_pos((i - 1) as nat);
            vstd::arithmetic::div_mod::lemma_div_denominator(
                value as int,
                pow256((i - 1) as nat) as int,
                256,
            );
        }
    }
    proof {
        assert(bytes@.subrange(offset as int, offset + size) =~= le_bytes(
            value as nat,
            size as nat,
        ));
    }
}

/// `256^a <= 256^b` when `a <= b`.
proof fn lemma_pow256_monotonic(a: nat, b: nat)
    requires
        a <= b,
    ensures
        pow256(a) <= pow256(b),
    decreases b,
{
    if a < b && b > 0 {
        lemma_pow256_monotonic(a, (b - 1) as nat);
    }
}

/// Extending an encoding by one byte appends the next base-256 digit.
proof fn lemma_le_bytes_snoc(value: nat, size: nat)
    ensures
        le_bytes(value, size + 1) =~= le_bytes(value, size).push(
            ((value / pow256(size)) % 256) as u8,
        ),
    decreases size,
{
    if size > 0 {
        lemma_le_bytes_snoc(value / 256, (size - 1) as nat);
        lemma_pow256_pos((size - 1) as nat);
        vstd::arithmetic::div_mod::lemma_div_denominator(
            value as int,
            256,
            pow256((size - 1) as nat) as int,
        );
        let digit = ((value / pow256(size)) % 256) as u8;
        assert(256 * pow256((size - 1) as nat) == pow256(size));
        assert((value / 256) / pow256((size - 1) as nat) == value / pow256(size));
        assert(le_bytes(value / 256, size) =~= le_bytes(value / 256, (size - 1) as nat).push(
            digit,
        ));
        assert(le_bytes(value, size + 1) =~= seq![(value % 256) as u8] + le_bytes(
            value / 256,
            size,
        ));
        assert(le_bytes(value, size).push(digit) =~= (seq![(value % 256) as u8] + le_bytes(
            value / 256,
            (size - 1) as nat,
        )).push(digit));
        assert(le_bytes(value, size + 1) =~= le_bytes(value, size).push(digit));
    } else {
        reveal_with_fuel(le_bytes, 3);
        assert(pow256(0) == 1);
        assert(le_bytes(value, 1) =~= seq![(value % 256) as u8]);
        assert(le_bytes(value, 0).push(((value / pow256(0)) % 256) as u8) =~= seq![
            (value % 256) as u8,
        ]);
    }
}

} // verus!
