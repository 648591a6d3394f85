//! The source map: for each emitted instruction, the one-based source
//! line it starts on and how many lines it covers. The instructions of
//! a shorthand expansion share the span of the mnemonic that produced
//! them. The persisted form is a flat little-endian stream of
//! `(u32 start_line, u32 line_count)` pairs, with no header.

use vstd::prelude::*;

use crate::endian::le_bytes;

verus! {

/// The source span one emitted instruction came from.
#[derive(Clone, Copy, PartialEq, Eq, Structural, Debug)]
pub struct SourceMapItem {
    /// One-based first source line of the producing mnemonic.
    pub start_line: u32,
    /// How many source lines the producing mnemonic covers.
    pub line_count: u32,
}

/// A source map: entry `i` describes emitted instruction `i`.
pub type SourceMap = Vec<SourceMapItem>;

/// Serializes a source map as a flat little-endian stream of
/// `(start_line, line_count)` pairs.
pub fn source_map_to_bytes(map: &SourceMap) -> (r: Vec<u8>)
    requires
        map@.len() * 8 <= usize::MAX,
    ensures
        r@.len() == 8 * map@.len(),
        forall|i: int|
            0 <= i < map@.len() ==> #[trigger] r@.subrange(8 * i, 8 * i + 8) == le_bytes(
                map@[i].start_line as nat,
                4,
            ) + le_bytes(map@[i].line_count as nat, 4),
{
    let n = map.len();
    let mut out: Vec<u8> = Vec::new();
    let mut i: usize = 0;
    while i < n
        invariant
            i <= n,
            n == map@.len(),
            out@.len() == 8 * i,
            forall|j: int|
                0 <= j < i ==> #[trigger] out@.subrange(8 * j, 8 * j + 8) == le_bytes(
                    map@[j].start_line as nat,
                    4,
                ) + le_bytes(map@[j].line_count as nat, 4),
        decreases n - i,
    {
        let ghost prev = out@;
        proof {
            crate::endian::lemma_le_bytes_value(map@[i as int].start_line as nat, 4);
            crate::endian::lemma_le_bytes_value(map@[i as int].line_count as nat, 4);
        }
        crate::executable::push_le32_bytes(&mut out, map[i].start_line);
        crate::executable::push_le32_bytes(&mut out, map[i].line_count);
        i = i + 1;
        proof {
            assert forall|j: int|
                0 <= j < i implies #[trigger] out@.subrange(8 * j, 8 * j + 8) == le_bytes(
                map@[j].start_line as nat,
                4,
            ) + le_bytes(map@[j].line_count as nat, 4) by {
                if j < i - 1 {
                    assert(out@.subrange(8 * j, 8 * j + 8) =~= prev.subrange(8 * j, 8 * j + 8));
                } else {
                    assert(out@.subrange(8 * j, 8 * j + 8) =~= le_bytes(
                        map@[j].start_line as nat,
                        4,
                    ) + le_bytes(map@[j].line_count as nat, 4));
                }
            }
        }
    }
    out
}

} // verus!
