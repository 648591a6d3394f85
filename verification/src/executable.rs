//! The executable container: an assembled program as
//! `(data_offset, instructions, data)`, with its compact serialized
//! form. The layout is `instr_len: u32 | data_len: u32 | data_offset:
//! u32 | instructions[instr_len] | data[data_len]`, all little-endian.

use vstd::prelude::*;

use crate::endian::{le_bytes, le_value, lemma_le_bytes_value, lemma_le_value_bound,
    lemma_pow256_values, read_le};

verus! {

/// An assembled program: the instruction bytes the processor executes,
/// the static data to load into memory, and the address the data was
/// assembled against.
#[derive(Debug)]
pub struct Executable {
    data_offset: u32,
    instructions: Vec<u8>,
    data: Vec<u8>,
}

/// The serialized form of a container: three little-endian `u32`
/// headers — instruction length, data length, data offset — followed by
/// the instruction bytes and the data bytes.
pub open spec fn encoded(data_offset: u32, instructions: Seq<u8>, data: Seq<u8>) -> Seq<u8> {
    le_bytes(instructions.len(), 4) + le_bytes(data.len(), 4) + le_bytes(data_offset as nat, 4)
        + instructions + data
}

impl Executable {
    /// The address the data section was assembled against.
    pub closed spec fn spec_data_offset(&self) -> u32 {
        self.data_offset
    }

    /// The instruction bytes.
    pub closed spec fn spec_instructions(&self) -> Seq<u8> {
        self.instructions@
    }

    /// The static data bytes.
    pub closed spec fn spec_data(&self) -> Seq<u8> {
        self.data@
    }

    /// Both sections fit the 32-bit headers of the serialized form.
    pub closed spec fn wf(&self) -> bool {
        self.instructions@.len() <= u32::MAX && self.data@.len() <= u32::MAX
    }

    /// A container from its three parts, taking ownership.
    pub fn from(data_offset: u32, instructions: Vec<u8>, data: Vec<u8>) -> (r: Executable)
        requires
            instructions@.len() <= u32::MAX,
            data@.len() <= u32::MAX,
        ensures
            r.wf(),
            r.spec_data_offset() == data_offset,
            r.spec_instructions() == instructions@,
            r.spec_data() == data@,
    {
        Executable { data_offset, instructions, data }
    }

    /// A container from its three parts, copying the byte slices.
    pub fn copy_from(data_offset: u32, instructions: &[u8], data: &[u8]) -> (r: Executable)
        requires
            instructions@.len() <= u32::MAX,
            data@.len() <= u32::MAX,
        ensures
            r.wf(),
            r.spec_data_offset() == data_offset,
            r.spec_instructions() == instructions@,
            r.spec_data() == data@,
    {
        Executable {
            data_offset,
            instructions: copy_bytes(instructions, 0, instructions.len()),
            data: copy_bytes(data, 0, data.len()),
        }
    }

    /// The address the data section was assembled against.
    pub fn data_offset(&self) -> (r: u32)
        ensures
            r == self.spec_data_offset(),
    {
        self.data_offset
    }

    /// The instruction bytes.
    pub fn instructions(&self) -> (r: &[u8])
        ensures
            r@ == self.spec_instructions(),
    {
        self.instructions.as_slice()
    }

    /// The static data bytes.
    pub fn data(&self) -> (r: &[u8])
        ensures
            r@ == self.spec_data(),
    {
        self.data.as_slice()
    }

    /// The size of the serialized form: twelve header bytes plus both
    /// sections.
    pub fn required_size(&self) -> (r: usize)
        requires
            self.wf(),
            12 + self.spec_instructions().len() + self.spec_data().len() <= usize::MAX,
        ensures
            r == 12 + self.spec_instructions().len() + self.spec_data().len(),
    {
        12 + self.instructions.len() + self.data.len()
    }
}

/// A copy of `bytes[start..start+count]` as an owned vector.
pub fn copy_bytes(bytes: &[u8], start: usize, count: usize) -> (r: Vec<u8>)
    requires
        start + count <= bytes@.len(),
    ensures
        r@ =~= bytes@.subrange(start as int, start + count),
{
    let n = bytes.len();
    let mut out: Vec<u8> = Vec::new();
    let mut i: usize = 0;
    while i < count
        invariant
            i <= count,
            start + count <= n == bytes@.len(),
            out@ =~= bytes@.subrange(start as int, start + i),
        decreases count - i,
    {
        out.push(bytes[start + i]);
        proof {
            assert(out@ =~= bytes@.subrange(start as int, start + i + 1));
        }
        i = i + 1;
    }
    out
}

/// Appends the four-byte little-endian encoding of `value`.
pub fn push_le32_bytes(out: &mut Vec<u8>, value: u32)
    ensures
        final(out)@ =~= old(out)@ + le_bytes(value as nat, 4),
{
    proof {
        lemma_pow256_values();
        lemma_le_bytes_value(value as nat, 4);
    }
    let b0 = (value % 0x100) as u8;
    let b1 = ((value / 0x100) % 0x100) as u8;
    let b2 = ((value / 0x1_0000) % 0x100) as u8;
    let b3 = ((value / 0x100_0000) % 0x100) as u8;
    out.push(b0);
    out.push(b1);
    out.push(b2);
    out.push(b3);
    proof {
        reveal_with_fuel(le_bytes, 5);
        assert(final(out)@ =~= old(out)@ + le_bytes(value as nat, 4));
    }
}

/// Serializes a container: the three headers, the instructions, the
/// data.
pub fn write(executable: &Executable) -> (r: Vec<u8>)
    requires
        executable.wf(),
    ensures
        r@ == encoded(
            executable.spec_data_offset(),
            executable.spec_instructions(),
            executable.spec_data(),
        ),
{
    let mut out: Vec<u8> = Vec::new();
    let instructions = executable.instructions();
    let data = executable.data();
    push_le32_bytes(&mut out, instructions.len() as u32);
    push_le32_bytes(&mut out, data.len() as u32);
    push_le32_bytes(&mut out, executable.data_offset());
    let mut i: usize = 0;
    let n = instructions.len();
    while i < n
        invariant
            i <= n,
            n == instructions@.len(),
            out@ =~= le_bytes(instructions@.len(), 4) + le_bytes(executable.spec_data().len(), 4)
                + le_bytes(executable.spec_data_offset() as nat, 4) + instructions@.subrange(
                0,
                i as int,
            ),
        decreases n - i,
    {
        out.push(instructions[i]);
        i = i + 1;
        proof {
            assert(out@ =~= le_bytes(instructions@.len(), 4) + le_bytes(
                executable.spec_data().len(),
                4,
            ) + le_bytes(executable.spec_data_offset() as nat, 4) + instructions@.subrange(
                0,
                i as int,
            ));
        }
    }
    let mut j: usize = 0;
    let m = data.len();
    while j < m
        invariant
            j <= m,
            m == data@.len(),
            out@ =~= le_bytes(instructions@.len(), 4) + le_bytes(data@.len(), 4) + le_bytes(
                executable.spec_data_offset() as nat,
                4,
            ) + instructions@ + data@.subrange(0, j as int),
            instructions@ == executable.spec_instructions(),
        decreases m - j,
    {
        out.push(data[j]);
        j = j + 1;
        proof {
            assert(out@ =~= le_bytes(instructions@.len(), 4) + le_bytes(data@.len(), 4)
                + le_bytes(executable.spec_data_offset() as nat, 4) + instructions@
                + data@.subrange(0, j as int));
        }
    }
    proof {
        assert(instructions@.subrange(0, instructions@.len() as int) =~= instructions@);
        assert(data@.subrange(0, data@.len() as int) =~= data@);
        assert(out@ =~= encoded(
            executable.spec_data_offset(),
            executable.spec_instructions(),
            executable.spec_data(),
        ));
    }
    out
}

/// Parses a serialized container. Succeeds exactly when the buffer
/// holds the three headers and at least as many bytes as they declare;
/// the sections are read to their declared lengths and trailing bytes
/// are ignored, as a stream reader would leave them unread.
pub fn read(bytes: &[u8]) -> (r: Result<Executable, ()>)
    ensures
        ({
            let ok = bytes@.len() >= 12 && 12 + le_value(bytes@.subrange(0, 4)) + le_value(
                bytes@.subrange(4, 8),
            ) <= bytes@.len();
            match r {
                Ok(e) => {
                    let il = le_value(bytes@.subrange(0, 4)) as int;
                    let dl = le_value(bytes@.subrange(4, 8)) as int;
                    &&& ok
                    &&& e.wf()
                    &&& e.spec_data_offset() == le_value(bytes@.subrange(8, 12))
                    &&& e.spec_instructions() == bytes@.subrange(12, 12 + il)
                    &&& e.spec_data() == bytes@.subrange(12 + il, 12 + il + dl)
                },
                Err(()) => !ok,
            }
        }),
{
    proof {
        lemma_pow256_values();
    }
    if bytes.len() < 12 {
        return Err(());
    }
    let instr_len = read_le(bytes, 0, 4);
    let data_len = read_le(bytes, 4, 4);
    let data_offset = read_le(bytes, 8, 4);
    proof {
        lemma_le_value_bound(bytes@.subrange(0, 4));
        lemma_le_value_bound(bytes@.subrange(4, 8));
    }
    if (bytes.len() as u64) < 12u64 + instr_len as u64 + data_len as u64 {
        return Err(());
    }
    let il = instr_len as usize;
    let dl = data_len as usize;
    let instructions = copy_bytes(bytes, 12, il);
    let data = copy_bytes(bytes, 12 + il, dl);
    Ok(Executable { data_offset, instructions, data })
}

/// Serializing a container and parsing the result yields the same
/// three parts: the headers decode to the section lengths, and the
/// sections sit at their declared positions.
pub proof fn lemma_container_roundtrip(data_offset: u32, instructions: Seq<u8>, data: Seq<u8>)
    requires
        instructions.len() <= u32::MAX,
        data.len() <= u32::MAX,
    ensures
        ({
            let b = encoded(data_offset, instructions, data);
            let il = le_value(b.subrange(0, 4)) as int;
            let dl = le_value(b.subrange(4, 8)) as int;
            &&& b.len() == 12 + instructions.len() + data.len()
            &&& il == instructions.len()
            &&& dl == data.len()
            &&& le_value(b.subrange(8, 12)) == data_offset
            &&& b.subrange(12, 12 + il) == instructions
            &&& b.subrange(12 + il, 12 + il + dl) == data
        }),
{
    lemma_pow256_values();
    lemma_le_bytes_value(instructions.len(), 4);
    lemma_le_bytes_value(data.len(), 4);
    lemma_le_bytes_value(data_offset as nat, 4);
    let b = encoded(data_offset, instructions, data);
    assert(b.subrange(0, 4) =~= le_bytes(instructions.len(), 4));
    assert(b.subrange(4, 8) =~= le_bytes(data.len(), 4));
    assert(b.subrange(8, 12) =~= le_bytes(data_offset as nat, 4));
    assert(b.subrange(12, 12 + instructions.len() as int) =~= instructions);
    assert(b.subrange(
        12 + instructions.len() as int,
        12 + instructions.len() as int + data.len() as int,
    ) =~= data);
}

} // verus!
