//! A write-observed storage: a plain buffer whose writes pass through a
//! handler. The handler first admits or silently drops each write, and
//! is notified after a committed one; reads are unconditional.

use vstd::prelude::*;

use crate::memory::{write_bytes, Memory, Storage, StorageMut};

verus! {

/// The two callbacks around the writes of an [`IOMemory`]: `can_write`
/// gates each write, `on_write` observes each committed one.
/// Implementations are supplied by the host; the only thing asked of
/// them is that `can_write` report its own policy, the spec predicate
/// [`IOHandler::admits`].
pub trait IOHandler {
    /// The handler's admission policy: whether a write of `size` bytes
    /// at `address` may be committed to the given buffer. Defaults to
    /// admitting every write; an implementation whose `can_write`
    /// restricts anything overrides it to say what it restricts.
    open spec fn admits(&self, memory: Seq<u8>, address: u32, size: u32) -> bool {
        true
    }

    /// Whether a write of `size` bytes at `address` may be committed to
    /// the buffer; reports exactly the admission policy.
    fn can_write(&self, memory: &Vec<u8>, address: u32, size: u32) -> (r: bool)
        ensures
            r == self.admits(memory@, address, size),
    ;

    /// Called after a write of `size` bytes at `address` was committed.
    fn on_write(&self, memory: &Vec<u8>, address: u32, size: u32);
}

/// A plain buffer watched by an [`IOHandler`]: a write the handler does
/// not admit leaves the buffer untouched but is still reported as
/// success, so this storage does not commit in the sense of
/// [`StorageMut::commits`].
pub struct IOMemory<H: IOHandler> {
    memory: Memory,
    handler: H,
}

impl<H: IOHandler> IOMemory<H> {
    /// Whether the handler currently admits a write of `size` bytes at
    /// `address`.
    pub closed spec fn admits(&self, address: u32, size: u32) -> bool {
        self.handler.admits(self.memory.bytes(), address, size)
    }

    /// A zero-initialized observed buffer of `size` bytes.
    pub fn new(size: u32, handler: H) -> (r: IOMemory<H>)
        ensures
            r.len() == size,
            forall|k: int| 0 <= k < size ==> r.mem()[k] == 0,
    {
        IOMemory { memory: Memory::new(size), handler }
    }

    /// The underlying bytes.
    pub fn data(&self) -> (r: &Vec<u8>)
        ensures
            r@.len() == self.len(),
            forall|k: int| 0 <= k < r@.len() ==> r@[k] == self.mem()[k],
    {
        self.memory.data()
    }

    /// Grows or shrinks the buffer to `size` bytes; bytes below both
    /// sizes are kept and newly added bytes are zero.
    pub fn resize(&mut self, size: u32)
        ensures
            final(self).len() == size,
            forall|k: int|
                0 <= k < size ==> final(self).mem()[k] == (if k < old(self).len() {
                    old(self).mem()[k]
                } else {
                    0u8
                }),
    {
        self.memory.resize(size);
    }
}

impl<H: IOHandler> Storage for IOMemory<H> {
    closed spec fn mem(&self) -> Map<int, u8> {
        self.memory.mem()
    }

    closed spec fn len(&self) -> nat {
        self.memory.len()
    }

    closed spec fn range_ok(&self, address: u32, size: u32) -> bool {
        self.memory.range_ok(address, size)
    }

    fn length(&self) -> (r: u32) {
        self.memory.length()
    }

    fn check_range(&self, address: u32, length: u32) -> (r: bool) {
        self.memory.check_range(address, length)
    }

    fn read(&self, address: u32, size: u32) -> (r: Result<u32, ()>) {
        let res = self.memory.read(address, size);
        proof {
            assert(self.len() == self.memory.len());
            assert(self.mem() == self.memory.mem());
        }
        res
    }
}

impl<H: IOHandler> StorageMut for IOMemory<H> {
    closed spec fn commits(&self) -> bool {
        false
    }

    /// A write consults the admission policy first: an admitted write to
    /// an addressable range is committed per the plain-buffer contract
    /// (and the handler is then notified); an admitted write to an
    /// unaddressable range fails with the buffer untouched; a refused
    /// write leaves the buffer untouched but is still reported as
    /// success, even out of range.
    fn write(&mut self, address: u32, size: u32, value: u32) -> (r: Result<(), ()>)
        ensures
            old(self).admits(address, size) && old(self).range_ok(address, size) ==> r is Ok
                && final(self).mem() == write_bytes(old(self).mem(), address, size, value),
            old(self).admits(address, size) && !old(self).range_ok(address, size) ==> r is Err
                && final(self).mem() == old(self).mem(),
            !old(self).admits(address, size) ==> r is Ok && final(self).mem() == old(self).mem(),
    {
        if self.handler.can_write(self.memory.data(), address, size) {
            let res = self.memory.write(address, size, value);
            match res {
                Ok(_) => {
                    self.handler.on_write(self.memory.data(), address, size);
                    Ok(())
                },
                Err(_) => Err(()),
            }
        } else {
            Ok(())
        }
    }
}

} // verus!
