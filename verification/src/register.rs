//! The register cell: a single 32-bit storage that may be read and
//! written as a signed or an unsigned integer. The interpretation is
//! purely contextual; equality is by raw bits.

use vstd::prelude::*;

use crate::numbers::{i32_bits, i32_from_bits, u32_bits, u32_from_i32};

verus! {

/// A 32-bit register cell. The same bits can be read as `i32` or `u32`;
/// two cells are equal exactly when their raw bits are equal.
#[derive(Clone, Copy, PartialEq, Eq, Structural, Debug)]
pub struct Register {
    bits: u32,
}

impl Register {
    /// The raw 32-bit content of the cell.
    pub closed spec fn bits(self) -> u32 {
        self.bits
    }

    /// A cell holding the given raw bits.
    pub fn from_bits(bits: u32) -> (r: Register)
        ensures
            r.bits() == bits,
    {
        Register { bits }
    }

    /// The cell's content read as a signed integer.
    pub fn i(self) -> (r: i32)
        ensures
            r == i32_bits(self.bits()),
    {
        i32_from_bits(self.bits)
    }

    /// The cell's content read as an unsigned integer.
    pub fn u(self) -> (r: u32)
        ensures
            r == self.bits(),
    {
        self.bits
    }

    /// Stores a signed integer into the cell.
    pub fn set_i(&mut self, value: i32)
        ensures
            final(self).bits() == u32_bits(value),
    {
        self.bits = u32_from_i32(value);
    }

    /// Stores an unsigned integer into the cell.
    pub fn set_u(&mut self, value: u32)
        ensures
            final(self).bits() == value,
    {
        self.bits = value;
    }
}

/// Two register cells are equal exactly when their raw bits are equal.
pub proof fn lemma_register_eq(a: Register, b: Register)
    ensures
        (a == b) <==> (a.bits() == b.bits()),
{
}

impl Default for Register {
    /// A zeroed register cell.
    fn default() -> (r: Register)
        ensures
            r.bits() == 0,
    {
        Register { bits: 0 }
    }
}

impl From<i32> for Register {
    /// A cell holding the two's-complement pattern of `v`.
    fn from(v: i32) -> (r: Register) {
        Register { bits: u32_from_i32(v) }
    }
}

impl vstd::std_specs::convert::FromSpecImpl<i32> for Register {
    open spec fn obeys_from_spec() -> bool {
        true
    }

    closed spec fn from_spec(v: i32) -> Register {
        Register { bits: u32_bits(v) }
    }
}

impl From<u32> for Register {
    /// A cell holding exactly the bits of `v`.
    fn from(v: u32) -> (r: Register) {
        Register { bits: v }
    }
}

impl vstd::std_specs::convert::FromSpecImpl<u32> for Register {
    open spec fn obeys_from_spec() -> bool {
        true
    }

    closed spec fn from_spec(v: u32) -> Register {
        Register { bits: v }
    }
}

/// Converting from an integer stores exactly its bit pattern.
pub proof fn lemma_register_from(i: i32, u: u32)
    ensures
        <Register as vstd::std_specs::convert::FromSpec<i32>>::from_spec(i).bits() == u32_bits(i),
        <Register as vstd::std_specs::convert::FromSpec<u32>>::from_spec(u).bits() == u,
{
}

} // verus!
