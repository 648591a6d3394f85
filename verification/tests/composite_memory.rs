//! The composite storage: mount positions, intersection errors, routing
//! of reads and writes to mounted fragments, and the mount/unmount
//! round trip.

use vcpu::memory::composite::{CompositeMemory, MountError};
use vcpu::memory::{Memory, Storage, StorageMut};

fn plain(len: u32) -> Memory {
    Memory::new(len)
}

#[test]
fn find_mount_index() {
    let mut memory: CompositeMemory<Memory> = CompositeMemory::new();
    assert_eq!(memory.find_mount_index(0, 16), Ok(0));
    assert_eq!(memory.mount(0, "f0", plain(16)), Ok(()));
    assert_eq!(
        memory.find_mount_index(8, 24),
        Err(MountError::FragmentIntersection)
    );
    assert_eq!(memory.mount(20, "f1", plain(16)), Ok(()));
    assert_eq!(memory.find_mount_index(16, 20), Ok(1));
    assert_eq!(memory.find_mount_index(18, 20), Ok(1));
    assert_eq!(memory.find_mount_index(40, 44), Ok(2));
    assert_eq!(
        memory.find_mount_index(15, 20),
        Err(MountError::FragmentIntersection)
    );
    assert_eq!(
        memory.find_mount_index(16, 21),
        Err(MountError::FragmentIntersection)
    );
}

#[test]
fn access_mounted_fragment() {
    let mut comp: CompositeMemory<Memory> = CompositeMemory::new();
    assert_eq!(comp.mount(0, "f0", Memory::from_vec(vec![0u8; 64])), Ok(()));
    assert_eq!(comp.mount(0xF1ED_0000, "f1", Memory::from_vec(vec![0u8; 1])), Ok(()));
    assert_eq!(comp.write_byte(0xF1ED_0001, 1), Err(()));
    assert_eq!(comp.write_byte(0xF1ED_0000, 1), Ok(()));
    let unmount_result = comp.unmount("f1");
    assert!(unmount_result.is_some());
    let fragment = unmount_result.unwrap();
    assert_eq!(fragment.read_byte(0), Ok(1));
}

#[test]
fn key_already_exists() {
    let mut comp: CompositeMemory<Memory> = CompositeMemory::new();
    assert_eq!(comp.mount(0, "f0", plain(16)), Ok(()));
    assert_eq!(
        comp.mount(64, "f0", plain(16)),
        Err(MountError::KeyAlreadyExists)
    );
    assert!(comp.unmount("something").is_none());
    assert!(comp.unmount("f0").is_some());
    assert!(comp.unmount("f0").is_none());
}

#[test]
fn mount_unmount_restores_the_composite() {
    let mut comp: CompositeMemory<Memory> = CompositeMemory::new();
    assert_eq!(comp.mount(0, "a", plain(64)), Ok(()));
    assert_eq!(comp.write_word(8, 0xAABBCCDD), Ok(()));
    let before_len = comp.length();
    assert_eq!(comp.mount(0xF1ED_0000, "b", plain(1)), Ok(()));
    assert_eq!(comp.write_byte(0xF1ED_0000, 1), Ok(()));
    let removed = comp.unmount("b");
    assert!(removed.is_some());
    assert_eq!(removed.unwrap().read_byte(0), Ok(1));
    assert_eq!(comp.length(), before_len);
    assert_eq!(comp.read_word(8), Ok(0xAABBCCDD));
    assert!(comp.unmount("b").is_none());
}

#[test]
fn length_is_end_of_last_fragment() {
    let mut comp: CompositeMemory<Memory> = CompositeMemory::new();
    assert_eq!(comp.length(), 0);
    assert_eq!(comp.mount(16, "f0", plain(4)), Ok(()));
    assert_eq!(comp.length(), 20);
    assert_eq!(comp.mount(100, "f1", plain(8)), Ok(()));
    assert_eq!(comp.length(), 108);
    // the gap between fragments is not addressable
    assert!(!comp.check_range(24, 4));
    assert!(comp.check_range(16, 4));
    assert!(comp.check_range(100, 8));
    assert_eq!(comp.read(24, 4), Err(()));
}

#[test]
fn routed_read_sees_the_fragment_bytes() {
    let mut comp: CompositeMemory<Memory> = CompositeMemory::new();
    assert_eq!(
        comp.mount(16, "f0", Memory::from_vec(vec![1u8, 2, 3, 4])),
        Ok(())
    );
    assert_eq!(comp.read_word(16), Ok(0x04030201));
    assert_eq!(comp.read_byte(19), Ok(4));
    assert_eq!(comp.read_byte(0), Err(()));
}
