//! The storage contract: byte-addressable memory with little-endian
//! multi-byte accesses, and the plain in-memory buffer that implements
//! it. A storage is modelled by the partial map from addresses to bytes
//! that its accesses can reach.

use vstd::prelude::*;

pub mod composite;
pub mod io;

use crate::endian::{le_bytes, le_value, lemma_le_value_bound, lemma_pow256_values, pow256,
    read_le, write_le};

verus! {

/// The bytes of `m` at addresses `address..address+size`, in address
/// order.
pub open spec fn range_bytes(m: Map<int, u8>, address: u32, size: u32) -> Seq<u8> {
    Seq::new(size as nat, |i: int| m[address + i])
}

/// `m` with the `size`-byte little-endian encoding of `value` placed at
/// `address..address+size`; the domain is unchanged.
pub open spec fn write_bytes(m: Map<int, u8>, address: u32, size: u32, value: u32) -> Map<
    int,
    u8,
> {
    m.union_prefer_right(
        Map::new(
            |k: int| address <= k < address + size && m.dom().contains(k),
            |k: int| le_bytes(value as nat, size as nat)[k - address],
        ),
    )
}

/// A memory storage unit with read access.
///
/// A storage is a byte-addressable space: [`Storage::mem`] gives the
/// byte reachable at each address, [`Storage::len`] its total extent,
/// and [`Storage::range_ok`] tells which address ranges a single access
/// may touch. Multi-byte reads are little-endian.
pub trait Storage: Sized {
    /// The byte reachable at each accessible address.
    spec fn mem(&self) -> Map<int, u8>;

    /// The total byte extent. Not every address below it need be
    /// accessible; use [`Storage::range_ok`] for that.
    spec fn len(&self) -> nat;

    /// Whether a single access to `address..address+size` is routed
    /// successfully.
    spec fn range_ok(&self, address: u32, size: u32) -> bool;


    /// The total length of the storage in bytes.
    fn length(&self) -> (r: u32)
        ensures
            r as nat == self.len(),
    ;

    /// Checks whether the range `[address..address+length]` is
    /// addressable within the storage. An addressable range lies within
    /// the storage's extent and all of its bytes are in the byte map.
    fn check_range(&self, address: u32, length: u32) -> (r: bool)
        ensures
            r == self.range_ok(address, length),
            r ==> address + length <= self.len() && (forall|k: int|
                0 <= k < length ==> self.mem().dom().contains(#[trigger] (address + k))),
    ;

    /// Reads `size` bytes starting at `address` as a little-endian
    /// unsigned integer, zero-padded to 32 bits. Fails exactly when the
    /// range is not addressable.
    fn read(&self, address: u32, size: u32) -> (r: Result<u32, ()>)
        requires
            1 <= size <= 4,
        ensures
            match r {
                Ok(v) => self.range_ok(address, size) && v == le_value(
                    range_bytes(self.mem(), address, size),
                ) && address + size <= self.len() && (forall|k: int|
                    0 <= k < size ==> self.mem().dom().contains(#[trigger] (address + k))),
                Err(()) => !self.range_ok(address, size),
            },
    ;

    /// Reads the byte at `address`. Fails exactly when the address is
    /// not addressable.
    fn read_byte(&self, address: u32) -> (r: Result<u8, ()>)
        ensures
            match r {
                Ok(v) => self.range_ok(address, 1) && v == self.mem()[address as int],
                Err(()) => !self.range_ok(address, 1),
            },
    {
        match self.read(address, 1) {
            Ok(v) => {
                proof {
                    lemma_le_value_bound(range_bytes(self.mem(), address, 1));
                    lemma_pow256_values();
                    assert(le_value(range_bytes(self.mem(), address, 1)) == self.mem()[
                        address as int]) by {
                        let s = range_bytes(self.mem(), address, 1);
                        assert(s.subrange(1, 1) =~= Seq::<u8>::empty());
                    }
                }
                Ok(v as u8)
            },
            Err(()) => Err(()),
        }
    }

    /// Reads the two bytes at `address` as a little-endian `u16`. Fails
    /// exactly when the range is not addressable.
    fn read_half(&self, address: u32) -> (r: Result<u16, ()>)
        ensures
            match r {
                Ok(v) => self.range_ok(address, 2) && v == le_value(
                    range_bytes(self.mem(), address, 2),
                ),
                Err(()) => !self.range_ok(address, 2),
            },
    {
        match self.read(address, 2) {
            Ok(v) => {
                proof {
                    lemma_le_value_bound(range_bytes(self.mem(), address, 2));
                    lemma_pow256_values();
                }
                Ok(v as u16)
            },
            Err(()) => Err(()),
        }
    }

    /// Reads the four bytes at `address` as a little-endian `u32`. Fails
    /// exactly when the range is not addressable.
    fn read_word(&self, address: u32) -> (r: Result<u32, ()>)
        ensures
            match r {
                Ok(v) => self.range_ok(address, 4) && v == le_value(
                    range_bytes(self.mem(), address, 4),
                ),
                Err(()) => !self.range_ok(address, 4),
            },
    {
        self.read(address, 4)
    }
}

/// A mutable memory storage unit. Multi-byte writes are little-endian.
///
/// A write either commits the encoded bytes or — for storages whose
/// write policy admits dropping, see [`StorageMut::commits`] — leaves
/// the bytes untouched while still reporting success.
pub trait StorageMut: Storage {
    /// Whether every successful write of this storage commits to the
    /// bytes. A plain buffer always commits; an observed storage may
    /// silently drop admitted writes.
    spec fn commits(&self) -> bool;

    /// Takes `size` bytes from `value` (starting at the least
    /// significant byte) and writes them at `address`; bits above the
    /// written width are ignored. A failure leaves the storage
    /// unchanged and is only reported for ranges that are not
    /// addressable.
    fn write(&mut self, address: u32, size: u32, value: u32) -> (r: Result<(), ()>)
        requires
            1 <= size <= 4,
        ensures
            final(self).len() == old(self).len(),
            final(self).commits() == old(self).commits(),
            forall|a: u32, l: u32| final(self).range_ok(a, l) == old(self).range_ok(a, l),
            r is Err ==> !old(self).range_ok(address, size) && final(self).mem() == old(
                self,
            ).mem(),
            old(self).commits() ==> (r is Ok <==> old(self).range_ok(address, size)),
            r is Ok && old(self).range_ok(address, size) ==> address + size <= old(self).len() && (
            forall|k: int|
                0 <= k < size ==> old(self).mem().dom().contains(#[trigger] (address + k))),
            r is Ok ==> final(self).mem() == old(self).mem() || (old(self).range_ok(address, size)
                && final(self).mem() == write_bytes(old(self).mem(), address, size, value)),
            r is Ok && old(self).commits() ==> final(self).mem() == write_bytes(
                old(self).mem(),
                address,
                size,
                value,
            ),
    ;

    /// Writes one byte at `address`.
    fn write_byte(&mut self, address: u32, value: u8) -> (r: Result<(), ()>)
        ensures
            final(self).len() == old(self).len(),
            final(self).commits() == old(self).commits(),
            forall|a: u32, l: u32| final(self).range_ok(a, l) == old(self).range_ok(a, l),
            r is Err ==> !old(self).range_ok(address, 1) && final(self).mem() == old(self).mem(),
            old(self).commits() ==> (r is Ok <==> old(self).range_ok(address, 1)),
            r is Ok && old(self).range_ok(address, 1) ==> address + 1 <= old(self).len() && (
            forall|k: int|
                0 <= k < 1 ==> old(self).mem().dom().contains(#[trigger] (address + k))),
            r is Ok ==> final(self).mem() == old(self).mem() || (old(self).range_ok(address, 1)
                && final(self).mem() == write_bytes(old(self).mem(), address, 1, value as u32)),
            r is Ok && old(self).commits() ==> final(self).mem() == write_bytes(
                old(self).mem(),
                address,
                1,
                value as u32,
            ),
    {
        proof {
            lemma_pow256_values();
        }
        self.write(address, 1, value as u32)
    }

    /// Writes `value` at `address` as two little-endian bytes.
    fn write_half(&mut self, address: u32, value: u16) -> (r: Result<(), ()>)
        ensures
            final(self).len() == old(self).len(),
            final(self).commits() == old(self).commits(),
            forall|a: u32, l: u32| final(self).range_ok(a, l) == old(self).range_ok(a, l),
            r is Err ==> !old(self).range_ok(address, 2) && final(self).mem() == old(self).mem(),
            old(self).commits() ==> (r is Ok <==> old(self).range_ok(address, 2)),
            r is Ok && old(self).range_ok(address, 2) ==> address + 2 <= old(self).len() && (
            forall|k: int|
                0 <= k < 2 ==> old(self).mem().dom().contains(#[trigger] (address + k))),
            r is Ok ==> final(self).mem() == old(self).mem() || (old(self).range_ok(address, 2)
                && final(self).mem() == write_bytes(old(self).mem(), address, 2, value as u32)),
            r is Ok && old(self).commits() ==> final(self).mem() == write_bytes(
                old(self).mem(),
                address,
                2,
                value as u32,
            ),
    {
        proof {
            lemma_pow256_values();
        }
        self.write(address, 2, value as u32)
    }

    /// Writes `value` at `address` as four little-endian bytes.
    fn write_word(&mut self, address: u32, value: u32) -> (r: Result<(), ()>)
        ensures
            final(self).len() == old(self).len(),
            final(self).commits() == old(self).commits(),
            forall|a: u32, l: u32| final(self).range_ok(a, l) == old(self).range_ok(a, l),
            r is Err ==> !old(self).range_ok(address, 4) && final(self).mem() == old(self).mem(),
            old(self).commits() ==> (r is Ok <==> old(self).range_ok(address, 4)),
            r is Ok && old(self).range_ok(address, 4) ==> address + 4 <= old(self).len() && (
            forall|k: int|
                0 <= k < 4 ==> old(self).mem().dom().contains(#[trigger] (address + k))),
            r is Ok ==> final(self).mem() == old(self).mem() || (old(self).range_ok(address, 4)
                && final(self).mem() == write_bytes(old(self).mem(), address, 4, value)),
            r is Ok && old(self).commits() ==> final(self).mem() == write_bytes(
                old(self).mem(),
                address,
                4,
                value,
            ),
    {
        proof {
            lemma_pow256_values();
        }
        self.write(address, 4, value)
    }
}

/// A plain contiguous byte buffer: every address below its length is
/// accessible, and every write commits.
pub struct Memory {
    data: Vec<u8>,
}

impl Memory {
    /// A storage's extent always fits the 32-bit address space.
    #[verifier::type_invariant]
    spec fn wf(self) -> bool {
        self.data@.len() <= u32::MAX
    }

    /// A zero-initialized buffer of `size` bytes.
    pub fn new(size: u32) -> (r: Memory)
        ensures
            r.len() == size,
            r.commits(),
            forall|k: int| 0 <= k < size ==> r.mem()[k] == 0,
    {
        let mut data: Vec<u8> = Vec::new();
        data.resize(size as usize, 0u8);
        Memory { data }
    }

    /// A buffer holding exactly the given bytes.
    pub fn from_vec(data: Vec<u8>) -> (r: Memory)
        requires
            data@.len() <= u32::MAX,
        ensures
            r.len() == data@.len(),
            r.commits(),
            forall|k: int| 0 <= k < data@.len() ==> r.mem()[k] == data@[k],
    {
        Memory { data }
    }

    /// Grows or shrinks the buffer to `size` bytes; bytes below both
    /// sizes are kept and newly added bytes are zero.
    pub fn resize(&mut self, size: u32)
        ensures
            final(self).len() == size,
            final(self).commits(),
            forall|k: int|
                0 <= k < size ==> final(self).mem()[k] == (if k < old(self).len() {
                    old(self).mem()[k]
                } else {
                    0u8
                }),
    {
        proof {
            use_type_invariant(&*self);
        }
        let mut data: Vec<u8> = Vec::new();
        std::mem::swap(&mut data, &mut self.data);
        data.resize(size as usize, 0u8);
        std::mem::swap(&mut data, &mut self.data);
    }

    /// The underlying bytes.
    pub fn data(&self) -> (r: &Vec<u8>)
        ensures
            r@ == self.bytes(),
    {
        &self.data
    }

    /// The buffer's content as a byte sequence.
    pub closed spec fn bytes(&self) -> Seq<u8> {
        self.data@
    }
}

/// The model of the plain buffer, spelled out: its extent fits the
/// address space, a range is addressable exactly when
/// `address + size <= length` (the sum taken without wrap-around),
/// every address below the length is in the byte map, and the map
/// holds exactly the buffer's bytes.
pub fn memory_model(m: &Memory)
    ensures
        m.len() <= u32::MAX,
        m.len() == m.bytes().len(),
        forall|a: u32, l: u32| #[trigger] m.range_ok(a, l) <==> a + l <= m.len(),
        forall|k: int| #[trigger] m.mem().dom().contains(k) <==> 0 <= k < m.len(),
        forall|k: int| 0 <= k < m.len() ==> #[trigger] m.mem()[k] == m.bytes()[k],
        m.commits(),
{
    proof {
        use_type_invariant(m);
    }
}

impl Storage for Memory {
    closed spec fn mem(&self) -> Map<int, u8> {
        Map::new(|k: int| 0 <= k < self.data@.len(), |k: int| self.data@[k])
    }

    closed spec fn len(&self) -> nat {
        self.data@.len()
    }

    closed spec fn range_ok(&self, address: u32, size: u32) -> bool {
        address + size <= self.data@.len()
    }


    fn length(&self) -> (r: u32) {
        proof {
            use_type_invariant(&*self);
        }
        self.data.len() as u32
    }

    fn check_range(&self, address: u32, length: u32) -> (r: bool)
        ensures
            r == (address + length <= self.len()),
    {
        proof {
            use_type_invariant(&*self);
            if self.range_ok(address, length) {
                assert(forall|k: int|
                    0 <= k < length ==> self.mem().dom().contains(#[trigger] (address + k)));
            }
        }
        let n = self.data.len();
        address as usize <= n && length as usize <= n - address as usize
    }

    fn read(&self, address: u32, size: u32) -> (r: Result<u32, ()>) {
        if self.check_range(address, size) {
            let v = read_le(self.data.as_slice(), address as usize, size as usize);
            proof {
                assert(self.data@.subrange(address as int, address + size) =~= range_bytes(
                    self.mem(),
                    address,
                    size,
                ));
            }
            Ok(v)
        } else {
            Err(())
        }
    }
}

impl StorageMut for Memory {
    closed spec fn commits(&self) -> bool {
        true
    }

    fn write(&mut self, address: u32, size: u32, value: u32) -> (r: Result<(), ()>) {
        proof {
            use_type_invariant(&*self);
        }
        if self.check_range(address, size) {
            let mut data: Vec<u8> = Vec::new();
            std::mem::swap(&mut data, &mut self.data);
            write_le(&mut data, address as usize, size as usize, value);
            std::mem::swap(&mut data, &mut self.data);
            proof {
                crate::endian::lemma_le_bytes_value(value as nat, size as nat);
                assert(self.mem() =~= write_bytes(old(self).mem(), address, size, value));
                assert(self.commits() && old(self).commits());
            }
            Ok(())
        } else {
            Err(())
        }
    }
}

/// After a committed write of `value` at `address`, reading the same
/// range yields `value` reduced to the written width; the width is
/// never exceeded, so the read returns `value` itself whenever `value`
/// is representable in `size` bytes.
pub proof fn lemma_write_read(m: Map<int, u8>, address: u32, size: u32, value: u32)
    requires
        1 <= size <= 4,
        forall|k: int| address <= k < address + size ==> m.dom().contains(k),
    ensures
        le_value(range_bytes(write_bytes(m, address, size, value), address, size)) == (
        value as nat) % pow256(size as nat),
{
    crate::endian::lemma_le_bytes_value(value as nat, size as nat);
    assert(range_bytes(write_bytes(m, address, size, value), address, size) =~= le_bytes(
        value as nat,
        size as nat,
    ));
}

/// The written value reduced to the width equals the value masked to
/// its low `8*size` bits, so [`lemma_write_read`] can be read with
/// either form; and a value already representable in the width is
/// returned exactly. In particular a written byte, half or word is read
/// back unchanged.
pub proof fn lemma_write_read_exact(m: Map<int, u8>, address: u32, size: u32, value: u32)
    requires
        1 <= size <= 4,
        forall|k: int| address <= k < address + size ==> m.dom().contains(k),
        (value as nat) < pow256(size as nat),
    ensures
        le_value(range_bytes(write_bytes(m, address, size, value), address, size)) == value,
{
    lemma_write_read(m, address, size, value);
    crate::endian::lemma_pow256_values();
    vstd::arithmetic::div_mod::lemma_small_mod(value as nat, pow256(size as nat));
}

/// The modulus of [`lemma_write_read`] agrees with the bit mask
/// `(1 << (8 * size)) - 1` for every access width.
pub proof fn lemma_mask_is_mod(value: u32, size: u32)
    requires
        1 <= size <= 4,
    ensures
        (value as nat) % pow256(size as nat) == value & (((1u64 << (8 * size as u64)) - 1) as u32),
{
    crate::endian::lemma_pow256_values();
    assert(value % 0x100 == value & (((1u64 << 8u64) - 1) as u32)) by (bit_vector);
    assert(value % 0x1_0000 == value & (((1u64 << 16u64) - 1) as u32)) by (bit_vector);
    assert(value % 0x100_0000 == value & (((1u64 << 24u64) - 1) as u32)) by (bit_vector);
    assert(value & (((1u64 << 32u64) - 1) as u32) == value) by (bit_vector);
    vstd::arithmetic::div_mod::lemma_small_mod(value as nat, pow256(4));
}

/// A committed write leaves every byte outside the written range
/// unchanged.
pub proof fn lemma_write_frame(m: Map<int, u8>, address: u32, size: u32, value: u32)
    ensures
        forall|k: int|
            m.dom().contains(k) && !(address <= k < address + size) ==> #[trigger] write_bytes(
                m,
                address,
                size,
                value,
            )[k] == m[k],
        write_bytes(m, address, size, value).dom() =~= m.dom(),
{
}

} // verus!
