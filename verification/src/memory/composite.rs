//! A storage composed of "fragments": child storages mounted at chosen
//! base addresses under unique string keys. An access at address `A` is
//! routed to the fragment whose base-sorted position contains `A`, at
//! the offset `A - base`; fragment ranges never overlap, and the
//! composite's length is the end of the last fragment.

use vstd::prelude::*;

use crate::memory::{range_bytes, write_bytes, Storage, StorageMut};

verus! {

/// Why a [`CompositeMemory::mount`] was refused.
#[derive(Clone, Copy, PartialEq, Eq, Structural, Debug)]
pub enum MountError {
    /// The new fragment's address range would intersect a mounted one.
    FragmentIntersection,
    /// Another fragment is already mounted under the same key.
    KeyAlreadyExists,
}

struct Frag<S: StorageMut> {
    base: u32,
    key: String,
    store: S,
}

/// A storage made of child storages mounted at base addresses, kept
/// sorted by base.
pub struct CompositeMemory<S: StorageMut> {
    items: Vec<Frag<S>>,
}

/// The index of the fragment an address is routed to: the last fragment
/// whose base is at or below the address.
pub open spec fn route_of(bases: Seq<u32>, a: u32) -> Option<int>
    decreases bases.len(),
{
    if bases.len() == 0 {
        None
    } else if bases[bases.len() - 1] <= a {
        Some(bases.len() - 1)
    } else {
        route_of(bases.drop_last(), a)
    }
}

/// Whether a mounted fragment conflicts with a new range of `flen`
/// bytes based at `address`.
pub open spec fn frag_conflict<S: StorageMut>(entry: (u32, Seq<char>, S), address: u32, flen: nat) -> bool {
    if entry.0 >= address {
        address + flen > entry.0
    } else {
        entry.0 + entry.2.len() > address
    }
}

/// The base addresses of a fragment view, in order.
pub open spec fn fragment_bases<S>(frags: Seq<(u32, Seq<char>, S)>) -> Seq<u32> {
    Seq::new(frags.len(), |i: int| frags[i].0)
}

/// The position a fragment based at `address` takes in base order: just
/// before the first fragment whose base is at or above `address`.
pub open spec fn mount_position(bases: Seq<u32>, address: u32) -> int
    decreases bases.len(),
{
    if bases.len() == 0 {
        0
    } else if bases[0] >= address {
        0
    } else {
        1 + mount_position(bases.drop_first(), address)
    }
}

/// The mount position is determined by its two sides: everything below
/// it is based under `address`, and the entry at it (if any) is not.
proof fn lemma_mount_position(bases: Seq<u32>, address: u32, idx: int)
    requires
        0 <= idx <= bases.len(),
        forall|j: int| 0 <= j < idx ==> #[trigger] bases[j] < address,
        idx < bases.len() ==> bases[idx as int] >= address,
    ensures
        mount_position(bases, address) == idx,
    decreases bases.len(),
{
    if bases.len() > 0 && !(bases[0] >= address) {
        lemma_mount_position(bases.drop_first(), address, idx - 1);
    }
}

/// The index of the fragment carrying `key` in a fragment list.
pub open spec fn key_index<S>(frags: Seq<(u32, Seq<char>, S)>, key: Seq<char>) -> int {
    choose|i: int| 0 <= i < frags.len() && (#[trigger] frags[i]).1 == key
}

/// Unmounting the key a fresh fragment was just mounted under removes
/// exactly that fragment and restores the fragment list, entry by
/// entry; this holds for every position the fragment may have entered
/// at.
pub proof fn lemma_mount_unmount_roundtrip<S>(
    frags0: Seq<(u32, Seq<char>, S)>,
    idx: int,
    entry: (u32, Seq<char>, S),
)
    requires
        0 <= idx <= frags0.len(),
        forall|j: int| 0 <= j < frags0.len() ==> (#[trigger] frags0[j]).1 != entry.1,
    ensures
        ({
            let mounted = frags0.insert(idx, entry);
            &&& key_index(mounted, entry.1) == idx
            &&& mounted[key_index(mounted, entry.1)] == entry
            &&& mounted.remove(key_index(mounted, entry.1)) =~= frags0
        }),
{
    let mounted = frags0.insert(idx, entry);
    assert(mounted[idx] == entry);
    let found = key_index(mounted, entry.1);
    assert(0 <= found < mounted.len() && mounted[found].1 == entry.1) by {
        assert(0 <= idx < mounted.len() && mounted[idx].1 == entry.1);
    }
    assert(found == idx) by {
        if found < idx {
            assert(mounted[found] == frags0[found]);
        } else if found > idx {
            assert(mounted[found] == frags0[found - 1]);
        }
    }
}

impl<S: StorageMut> CompositeMemory<S> {
    /// The mounted fragments in base order: base address, key and child.
    pub closed spec fn fragments(&self) -> Seq<(u32, Seq<char>, S)> {
        items_view(self.items@)
    }

    spec fn bases(&self) -> Seq<u32> {
        Seq::new(self.items@.len(), |i: int| self.items@[i].base)
    }

    /// The composite is well formed: each fragment ends at or before the
    /// next one begins, every fragment end fits the address space, and
    /// keys are unique.
    #[verifier::type_invariant]
    spec fn wf(self) -> bool {
        wf_items(self.items@)
    }

    /// Whether some fragment is mounted under this key.
    pub open spec fn has_key(&self, key: Seq<char>) -> bool {
        exists|j: int| 0 <= j < self.fragments().len() && (#[trigger] self.fragments()[j]).1 == key
    }

    /// Whether a fragment of length `flen` based at `address` would
    /// intersect a mounted fragment: the new range reaches a fragment
    /// whose base is at or above the new base, or a fragment below the
    /// new base reaches past it.
    pub open spec fn intersects(&self, address: u32, flen: nat) -> bool {
        exists|j: int|
            0 <= j < self.fragments().len() && frag_conflict(
                #[trigger] self.fragments()[j],
                address,
                flen,
            )
    }

    /// An empty composite: no fragments, length zero.
    pub fn new() -> (r: CompositeMemory<S>)
        ensures
            r.fragments() =~= Seq::<(u32, Seq<char>, S)>::empty(),
            r.len() == 0,
    {
        proof {
            reveal(wf_items);
        }
        proof {
            reveal(wf_items);
        }
        let r = CompositeMemory { items: Vec::new() };
        proof {
            assert(r.fragments() =~= Seq::<(u32, Seq<char>, S)>::empty());
        }
        r
    }

    /// Mounts `fragment` at `address` under `key`: the fragment then
    /// occupies `address..address+fragment.length()` and enters the
    /// list at a base-sorted position. Fails with
    /// [`MountError::KeyAlreadyExists`] when the key is already bound,
    /// and otherwise with [`MountError::FragmentIntersection`] when the
    /// new range would intersect a mounted fragment; a failed mount
    /// leaves the composite unchanged. The fragment's end must fit the
    /// address space.
    #[verifier::rlimit(100)]
    #[verifier::spinoff_prover]
    pub fn mount(&mut self, address: u32, key: &str, fragment: S) -> (r: Result<(), MountError>)
        requires
            address + fragment.len() <= u32::MAX,
        ensures
            r == Err::<(), MountError>(MountError::KeyAlreadyExists) <==> old(self).has_key(key@),
            r is Err ==> final(self).fragments() == old(self).fragments(),
            !old(self).has_key(key@) ==> (r == Err::<(), MountError>(
                MountError::FragmentIntersection,
            ) <==> old(self).intersects(address, fragment.len())),
            r is Ok ==> final(self).fragments() == old(self).fragments().insert(
                mount_position(fragment_bases(old(self).fragments()), address),
                (address, key@, fragment),
            ),
    {
        proof {
            use_type_invariant(&*self);
        }
        let ghost pre = *self;
        let mut items: Vec<Frag<S>> = Vec::new();
        proof {
            reveal(wf_items);
        }
        std::mem::swap(&mut items, &mut self.items);
        match Self::find_key_index(&items, key) {
            Some(i) => {
                std::mem::swap(&mut items, &mut self.items);
                proof {
                    assert(self.items@ == pre.items@);
                    assert(self.fragments() =~= pre.fragments());
                    assert((#[trigger] pre.fragments()[i as int]).1 == key@);
                }
                Err(MountError::KeyAlreadyExists)
            },
            None => {
                proof {
                    assert forall|j: int|
                        0 <= j < pre.fragments().len() implies (
                    #[trigger] pre.fragments()[j]).1 != key@ by {
                        assert(items@[j].key@ != key@);
                    }
                    assert(!pre.has_key(key@));
                }
                let flen = fragment.length();
                let found = Self::find_mount_index_in(&items, address, flen);
                proof {
                    if items_intersect(items@, address, flen as nat) {
                        let j = choose|j: int|
                            0 <= j < items@.len() && frag_conflict(
                                ((#[trigger] items@[j]).base, items@[j].key@, items@[j].store),
                                address,
                                flen as nat,
                            );
                        assert(frag_conflict(
                            #[trigger] pre.fragments()[j],
                            address,
                            fragment.len(),
                        ));
                        assert(pre.intersects(address, fragment.len()));
                    } else {
                        assert forall|j: int|
                            0 <= j < pre.fragments().len() implies !frag_conflict(
                            #[trigger] pre.fragments()[j],
                            address,
                            fragment.len(),
                        ) by {
                            assert(!frag_conflict(
                                (items@[j].base, items@[j].key@, items@[j].store),
                                address,
                                flen as nat,
                            ));
                        }
                        assert(!pre.intersects(address, fragment.len()));
                    }
                }
                match found {
                    Ok(idx) => {
                        let ghost before = items@;
                        items.insert(idx, Frag { base: address, key: key.to_owned(), store: fragment });
                        proof {
                            lemma_wf_insert(before, idx as int, items@[idx as int]);
                            assert(items@ == before.insert(idx as int, items@[idx as int]));
                        }
                        std::mem::swap(&mut items, &mut self.items);
                        proof {
                            lemma_view_insert(before, idx as int, self.items@[idx as int]);
                            assert(self.fragments() =~= pre.fragments().insert(
                                idx as int,
                                (address, key@, fragment),
                            ));
                            assert(fragment_bases(pre.fragments()) =~= items_bases(before));
                            lemma_mount_position(
                                fragment_bases(pre.fragments()),
                                address,
                                idx as int,
                            );
                        }
                        Ok(())
                    },
                    Err(e) => {
                        std::mem::swap(&mut items, &mut self.items);
                        proof {
                            assert(self.items@ == pre.items@);
                            assert(self.fragments() =~= pre.fragments());
                        }
                        Err(e)
                    },
                }
            },
        }
    }

    /// The position of the fragment mounted under `key`, if any.
    #[verifier::loop_isolation(false)]
    fn find_key_index(items: &Vec<Frag<S>>, key: &str) -> (r: Option<usize>)
        ensures
            match r {
                Some(i) => 0 <= i < items@.len() && items@[i as int].key@ == key@,
                None => forall|j: int| 0 <= j < items@.len() ==> (#[trigger] items@[j]).key@ != key@,
            },
    {
        let owned = key.to_owned();
        let n = items.len();
        let mut i: usize = 0;
        while i < n
            invariant
                i <= n,
                forall|j: int| 0 <= j < i ==> (#[trigger] items@[j]).key@ != key@,
            decreases n - i,
        {
            if items[i].key == owned {
                return Some(i);
            }
            i = i + 1;
        }
        None
    }

    /// The base-sorted insertion position for a fragment of length
    /// `flen` at `address`, or the intersection error.
    #[verifier::loop_isolation(false)]
    fn find_mount_index_in(items: &Vec<Frag<S>>, address: u32, flen: u32) -> (r: Result<
        usize,
        MountError,
    >)
        requires
            wf_items(items@),
            address + flen <= u32::MAX,
        ensures
            match r {
                Ok(idx) => {
                    &&& !items_intersect(items@, address, flen as nat)
                    &&& 0 <= idx <= items@.len()
                    &&& forall|j: int| 0 <= j < idx ==> (#[trigger] items@[j]).base < address
                    &&& idx > 0 ==> items@[idx - 1].base + items@[idx - 1].store.len() <= address
                    &&& idx < items@.len() ==> address + flen <= items@[idx as int].base
                },
                Err(e) => e == MountError::FragmentIntersection && items_intersect(
                    items@,
                    address,
                    flen as nat,
                ),
            },
    {
        proof {
            reveal(wf_items);
            lemma_chain(items@);
        }
        let n = items.len();
        let mut i: usize = 0;
        while i < n
            invariant
                i <= n,
                forall|j: int| 0 <= j < i ==> (#[trigger] items@[j]).base < address,
                forall|j: int|
                    0 <= j < i ==> (#[trigger] items@[j]).base + items@[j].store.len() <= address,
            decreases n - i,
        {
            let base_i = items[i].base;
            let len_i = items[i].store.length();
            if base_i >= address {
                if address as u64 + flen as u64 > base_i as u64 {
                    proof {
                        assert(frag_conflict(
                            ((#[trigger] items@[i as int]).base, items@[i as int].key@, items@[
                                i as int].store),
                            address,
                            flen as nat,
                        ));
                    }
                    return Err(MountError::FragmentIntersection);
                } else {
                    proof {
                        lemma_chain(items@);
                        assert forall|j: int|
                            0 <= j < items@.len() implies !frag_conflict(
                            ((#[trigger] items@[j]).base, items@[j].key@, items@[j].store),
                            address,
                            flen as nat,
                        ) by {
                            if j > i {
                                lemma_chain_step(items@, i as int, j);
                            }
                        }
                    }
                    return Ok(i);
                }
            } else if base_i as u64 + len_i as u64 > address as u64 {
                proof {
                    assert(frag_conflict(
                        ((#[trigger] items@[i as int]).base, items@[i as int].key@, items@[
                            i as int].store),
                        address,
                        flen as nat,
                    ));
                }
                return Err(MountError::FragmentIntersection);
            }
            i = i + 1;
        }
        proof {
            assert forall|j: int|
                0 <= j < items@.len() implies !frag_conflict(
                ((#[trigger] items@[j]).base, items@[j].key@, items@[j].store),
                address,
                flen as nat,
            ) by {}
        }
        Ok(n)
    }

    /// The base-sorted position a fragment spanning
    /// `address..upper_bound` would take, or the intersection error a
    /// mount would report: everything below the position is based (and
    /// ends) under `address`, and the range ends at or before the base
    /// at the position.
    pub fn find_mount_index(&self, address: u32, upper_bound: u32) -> (r: Result<
        usize,
        MountError,
    >)
        requires
            address <= upper_bound,
        ensures
            match r {
                Ok(idx) => {
                    &&& !self.intersects(address, (upper_bound - address) as nat)
                    &&& 0 <= idx <= self.fragments().len()
                    &&& idx == mount_position(fragment_bases(self.fragments()), address)
                    &&& forall|j: int|
                        0 <= j < idx ==> (#[trigger] self.fragments()[j]).0
                            + self.fragments()[j].2.len() <= address
                    &&& idx < self.fragments().len() ==> upper_bound <= self.fragments()[
                        idx as int].0
                },
                Err(e) => e == MountError::FragmentIntersection && self.intersects(
                    address,
                    (upper_bound - address) as nat,
                ),
            },
    {
        proof {
            use_type_invariant(&*self);
        }
        let length = upper_bound - address;
        let found = Self::find_mount_index_in(&self.items, address, length);
        proof {
            if items_intersect(self.items@, address, length as nat) {
                let j = choose|j: int|
                    0 <= j < self.items@.len() && frag_conflict(
                        ((#[trigger] self.items@[j]).base, self.items@[j].key@, self.items@[
                            j].store),
                        address,
                        length as nat,
                    );
                assert(frag_conflict(#[trigger] self.fragments()[j], address, length as nat));
            } else {
                assert forall|j: int|
                    0 <= j < self.fragments().len() implies !frag_conflict(
                    #[trigger] self.fragments()[j],
                    address,
                    length as nat,
                ) by {
                    assert(!frag_conflict(
                        (self.items@[j].base, self.items@[j].key@, self.items@[j].store),
                        address,
                        length as nat,
                    ));
                }
            }
            if found is Ok {
                let idx = found.unwrap() as int;
                assert(fragment_bases(self.fragments()) =~= items_bases(self.items@));
                lemma_mount_position(fragment_bases(self.fragments()), address, idx);
            }
        }
        found
    }

    /// Unmounts and returns the fragment mounted under `key`, if any;
    /// without such a fragment the composite is unchanged.
    #[verifier::rlimit(100)]
    #[verifier::spinoff_prover]
    pub fn unmount(&mut self, key: &str) -> (r: Option<S>)
        ensures
            !old(self).has_key(key@) ==> r is None && final(self).fragments() == old(self).fragments(),
            old(self).has_key(key@) ==> ({
                let idx = key_index(old(self).fragments(), key@);
                &&& r == Some(old(self).fragments()[idx].2)
                &&& final(self).fragments() == old(self).fragments().remove(idx)
            }),
    {
        proof {
            use_type_invariant(&*self);
        }
        let ghost pre = *self;
        let mut items: Vec<Frag<S>> = Vec::new();
        proof {
            reveal(wf_items);
        }
        std::mem::swap(&mut items, &mut self.items);
        match Self::find_key_index(&items, key) {
            Some(i) => {
                let frag = items.remove(i);
                proof {
                    lemma_wf_remove(pre.items@, i as int);
                }
                std::mem::swap(&mut items, &mut self.items);
                proof {
                    reveal(wf_items);
                    assert((#[trigger] pre.fragments()[i as int]).1 == key@);
                    let idx = key_index(pre.fragments(), key@);
                    assert(0 <= idx < pre.fragments().len() && pre.fragments()[idx].1 == key@);
                    assert(idx == i as int);
                    assert(self.fragments() =~= pre.fragments().remove(i as int));
                }
                Some(frag.store)
            },
            None => {
                std::mem::swap(&mut items, &mut self.items);
                proof {
                    assert(self.items@ == pre.items@);
                    assert(self.fragments() =~= pre.fragments());
                    assert forall|j: int|
                        0 <= j < pre.fragments().len() implies (
                    #[trigger] pre.fragments()[j]).1 != key@ by {
                        assert(pre.items@[j].key@ != key@);
                    }
                    assert(!pre.has_key(key@));
                }
                None
            },
        }
    }

    /// The index of the fragment `address` is routed to, if any.
    #[verifier::loop_isolation(false)]
    fn find_route(items: &Vec<Frag<S>>, address: u32) -> (r: Option<usize>)
        ensures
            match r {
                Some(i) => route_of(items_bases(items@), address) == Some(i as int),
                None => route_of(items_bases(items@), address) is None,
            },
    {
        let mut i = items.len();
        proof {
            assert(items_bases(items@).subrange(0, items@.len() as int) =~= items_bases(items@));
        }
        while i > 0
            invariant
                i <= items@.len(),
                route_of(items_bases(items@), address) == route_of(
                    items_bases(items@).subrange(0, i as int),
                    address,
                ),
            decreases i,
        {
            proof {
                assert(items_bases(items@).subrange(0, i as int).drop_last()
                    =~= items_bases(items@).subrange(0, i - 1));
            }
            if items[i - 1].base <= address {
                proof {
                    assert(route_of(items_bases(items@).subrange(0, i as int), address) == Some(
                        i - 1,
                    ));
                }
                return Some(i - 1);
            }
            i = i - 1;
        }
        None
    }
}

/// The base addresses of a fragment list.
spec fn items_bases<S: StorageMut>(items: Seq<Frag<S>>) -> Seq<u32> {
    Seq::new(items.len(), |i: int| items[i].base)
}

/// A fragment list as base, key and child triples.
spec fn items_view<S: StorageMut>(items: Seq<Frag<S>>) -> Seq<(u32, Seq<char>, S)> {
    Seq::new(items.len(), |i: int| (items[i].base, items[i].key@, items[i].store))
}

proof fn lemma_view_insert<S: StorageMut>(items: Seq<Frag<S>>, idx: int, f: Frag<S>)
    requires
        0 <= idx <= items.len(),
    ensures
        items_view(items.insert(idx, f)) =~= items_view(items).insert(
            idx,
            (f.base, f.key@, f.store),
        ),
{
    items.insert_ensures(idx, f);
    items_view(items).insert_ensures(idx, (f.base, f.key@, f.store));
}

proof fn lemma_view_remove<S: StorageMut>(items: Seq<Frag<S>>, idx: int)
    requires
        0 <= idx < items.len(),
    ensures
        items_view(items.remove(idx)) =~= items_view(items).remove(idx),
{
    items.remove_ensures(idx);
    items_view(items).remove_ensures(idx);
}

#[verifier::opaque]
#[verifier::opaque]
spec fn wf_items<S: StorageMut>(items: Seq<Frag<S>>) -> bool {
    &&& forall|i: int|
        0 <= i && i + 1 < items.len() ==> (#[trigger] items[i]).base + items[i].store.len() <= (
        #[trigger] items[i + 1]).base
    &&& forall|i: int|
        0 <= i < items.len() ==> (#[trigger] items[i]).base + items[i].store.len() <= u32::MAX
    &&& forall|i: int, j: int|
        0 <= i < j < items.len() ==> (#[trigger] items[i]).key@ != (#[trigger] items[j]).key@
}

proof fn lemma_wf_insert<S: StorageMut>(pre: Seq<Frag<S>>, idx: int, entry: Frag<S>)
    requires
        wf_items(pre),
        0 <= idx <= pre.len(),
        entry.base + entry.store.len() <= u32::MAX,
        idx > 0 ==> pre[idx - 1].base + pre[idx - 1].store.len() <= entry.base,
        idx < pre.len() ==> entry.base + entry.store.len() <= pre[idx].base,
        forall|j: int| 0 <= j < pre.len() ==> (#[trigger] pre[j]).key@ != entry.key@,
    ensures
        wf_items(pre.insert(idx, entry)),
{
    reveal(wf_items);
    let s = pre.insert(idx, entry);
    pre.insert_ensures(idx, entry);
    assert forall|a: int| 0 <= a && a + 1 < s.len() implies (#[trigger] s[a]).base
        + s[a].store.len() <= (#[trigger] s[a + 1]).base by {
        if a + 1 < idx {
            assert(s[a] == pre[a] && s[a + 1] == pre[a + 1]);
        } else if a + 1 == idx {
            assert(s[a] == pre[a] && s[a + 1] == entry);
        } else if a == idx {
            assert(s[a] == entry && s[a + 1] == pre[a]);
        } else {
            assert(s[a] == pre[a - 1] && s[a + 1] == pre[a]);
        }
    }
    assert forall|a: int| 0 <= a < s.len() implies (#[trigger] s[a]).base + s[a].store.len()
        <= u32::MAX by {
        if a < idx {
            assert(s[a] == pre[a]);
        } else if a == idx {
        } else {
            assert(s[a] == pre[a - 1]);
        }
    }
    assert forall|a: int, b: int| 0 <= a < b < s.len() implies (#[trigger] s[a]).key@ != (
    #[trigger] s[b]).key@ by {
        if a < idx {
            assert(s[a] == pre[a]);
        } else if a > idx {
            assert(s[a] == pre[a - 1]);
        }
        if b < idx {
            assert(s[b] == pre[b]);
        } else if b > idx {
            assert(s[b] == pre[b - 1]);
        }
    }
}

proof fn lemma_wf_remove<S: StorageMut>(pre: Seq<Frag<S>>, idx: int)
    requires
        wf_items(pre),
        0 <= idx < pre.len(),
    ensures
        wf_items(pre.remove(idx)),
{
    reveal(wf_items);
    let s = pre.remove(idx);
    pre.remove_ensures(idx);
    assert forall|a: int| 0 <= a && a + 1 < s.len() implies (#[trigger] s[a]).base
        + s[a].store.len() <= (#[trigger] s[a + 1]).base by {
        if a + 1 < idx {
            assert(s[a] == pre[a] && s[a + 1] == pre[a + 1]);
        } else if a + 1 == idx {
            assert(s[a] == pre[a] && s[a + 1] == pre[a + 1 + 1]);
            lemma_chain_step(pre, a, a + 2);
        } else {
            assert(s[a] == pre[a + 1] && s[a + 1] == pre[a + 2]);
        }
    }
    assert forall|a: int| 0 <= a < s.len() implies (#[trigger] s[a]).base + s[a].store.len()
        <= u32::MAX by {
        if a < idx {
            assert(s[a] == pre[a]);
        } else {
            assert(s[a] == pre[a + 1]);
        }
    }
    assert forall|a: int, b: int| 0 <= a < b < s.len() implies (#[trigger] s[a]).key@ != (
    #[trigger] s[b]).key@ by {
        if a < idx {
            assert(s[a] == pre[a]);
        } else {
            assert(s[a] == pre[a + 1]);
        }
        if b < idx {
            assert(s[b] == pre[b]);
        } else {
            assert(s[b] == pre[b + 1]);
        }
    }
}

/// The byte map of a fragment list: an address is reachable when the
/// fragment it routes to holds the corresponding local byte.
spec fn items_mem<S: StorageMut>(items: Seq<Frag<S>>) -> Map<int, u8> {
    Map::new(
        |ad: int|
            0 <= ad <= u32::MAX && match route_of(items_bases(items), ad as u32) {
                Some(i) => items[i].store.mem().dom().contains(ad - items[i].base),
                None => false,
            },
        |ad: int|
            {
                let i = route_of(items_bases(items), ad as u32).unwrap();
                items[i].store.mem()[ad - items[i].base]
            },
    )
}

spec fn items_range_ok<S: StorageMut>(items: Seq<Frag<S>>, address: u32, size: u32) -> bool {
    match route_of(items_bases(items), address) {
        Some(i) => items[i].store.range_ok((address - items[i].base) as u32, size),
        None => false,
    }
}

spec fn items_intersect<S: StorageMut>(items: Seq<Frag<S>>, address: u32, flen: nat) -> bool {
    exists|j: int|
        0 <= j < items.len() && frag_conflict(
            ((#[trigger] items[j]).base, items[j].key@, items[j].store),
            address,
            flen,
        )
}

proof fn lemma_chain_step<S: StorageMut>(items: Seq<Frag<S>>, i: int, j: int)
    requires
        wf_items(items),
        0 <= i < j < items.len(),
    ensures
        items[i].base + items[i].store.len() <= items[j].base,
    decreases j - i,
{
    reveal(wf_items);
    assert(items[i].base + items[i].store.len() <= (#[trigger] items[i + 1]).base);
    if i + 1 < j {
        lemma_chain_step(items, i + 1, j);
    }
}

proof fn lemma_chain<S: StorageMut>(items: Seq<Frag<S>>)
    requires
        wf_items(items),
    ensures
        forall|i: int, j: int|
            0 <= i < j < items.len() ==> (#[trigger] items[i]).base + items[i].store.len()
                <= (#[trigger] items[j]).base,
        forall|i: int, j: int|
            0 <= i <= j < items.len() ==> (#[trigger] items[i]).base <= (
            #[trigger] items[j]).base,
{
    reveal(wf_items);
    assert forall|i: int, j: int| 0 <= i < j < items.len() implies (#[trigger] items[i]).base
        + items[i].store.len() <= (#[trigger] items[j]).base by {
        lemma_chain_step(items, i, j);
    }
    assert forall|i: int, j: int| 0 <= i <= j < items.len() implies (#[trigger] items[i]).base <= (
    #[trigger] items[j]).base by {
        if i < j {
            lemma_chain_step(items, i, j);
        }
    }
}

proof fn lemma_route_props<S: StorageMut>(bases: Seq<u32>, a: u32)
    ensures
        match route_of(bases, a) {
            Some(i) => 0 <= i < bases.len() && bases[i] <= a && (forall|j: int|
                i < j < bases.len() ==> #[trigger] bases[j] > a),
            None => forall|j: int| 0 <= j < bases.len() ==> #[trigger] bases[j] > a,
        },
    decreases bases.len(),
{
    if bases.len() > 0 && !(bases[bases.len() - 1] <= a) {
        let prefix = bases.drop_last();
        lemma_route_props::<S>(prefix, a);
        match route_of(prefix, a) {
            Some(i) => {
                assert forall|j: int| i < j < bases.len() implies #[trigger] bases[j] > a by {
                    if j < bases.len() - 1 {
                        assert(prefix[j] > a);
                    }
                }
            },
            None => {
                assert forall|j: int| 0 <= j < bases.len() implies #[trigger] bases[j] > a by {
                    if j < bases.len() - 1 {
                        assert(prefix[j] > a);
                    }
                }
            },
        }
    }
}

proof fn lemma_route_unique(bases: Seq<u32>, a: u32, i: int)
    requires
        0 <= i < bases.len(),
        bases[i] <= a,
        forall|j: int| i < j < bases.len() ==> #[trigger] bases[j] > a,
    ensures
        route_of(bases, a) == Some(i),
    decreases bases.len(),
{
    if i < bases.len() - 1 {
        lemma_route_unique(bases.drop_last(), a, i);
    }
}

/// Every byte address of an access that stays within the routed
/// fragment routes to that same fragment.
proof fn lemma_route_stable<S: StorageMut>(items: Seq<Frag<S>>, a: u32, i: int, size: u32)
    requires
        wf_items(items),
        route_of(items_bases(items), a) == Some(i),
        0 <= i < items.len(),
        a + size <= items[i].base + items[i].store.len(),
    ensures
        forall|k: int|
            0 <= k < size ==> route_of(items_bases(items), #[trigger] ((a + k) as u32)) == Some(i),
{
    reveal(wf_items);
    lemma_route_props::<S>(items_bases(items), a);
    lemma_chain(items);
    assert forall|k: int| 0 <= k < size implies route_of(
        items_bases(items),
        #[trigger] ((a + k) as u32),
    ) == Some(i) by {
        assert forall|j: int| i < j < items_bases(items).len() implies #[trigger] items_bases(
            items,
        )[j] > (a + k) as u32 by {
            lemma_chain_step(items, i, j);
        }
        lemma_route_unique(items_bases(items), (a + k) as u32, i);
    }
}

/// The model of the composite, spelled out over its public fragment
/// view: each fragment ends at or before the next one begins and within
/// the address space, keys are unique, the length is the end of the
/// last fragment, and every access — its admissibility and its bytes —
/// is routed to the last fragment whose base is at or below the
/// address, at the offset from that base.
pub fn composite_model<S: StorageMut>(m: &CompositeMemory<S>)
    ensures
        forall|i: int|
            0 <= i && i + 1 < m.fragments().len() ==> (#[trigger] m.fragments()[i]).0
                + m.fragments()[i].2.len() <= (#[trigger] m.fragments()[i + 1]).0,
        forall|i: int|
            0 <= i < m.fragments().len() ==> (#[trigger] m.fragments()[i]).0 + m.fragments()[
                i].2.len() <= u32::MAX,
        forall|i: int, j: int|
            0 <= i < j < m.fragments().len() ==> (#[trigger] m.fragments()[i]).1 != (
            #[trigger] m.fragments()[j]).1,
        m.len() == if m.fragments().len() == 0 {
            0nat
        } else {
            (m.fragments().last().0 + m.fragments().last().2.len()) as nat
        },
        forall|a: u32, l: u32|
            #[trigger] m.range_ok(a, l) == match route_of(fragment_bases(m.fragments()), a) {
                Some(i) => m.fragments()[i].2.range_ok((a - m.fragments()[i].0) as u32, l),
                None => false,
            },
        forall|ad: int|
            #[trigger] m.mem().dom().contains(ad) <==> (0 <= ad <= u32::MAX && match route_of(
                fragment_bases(m.fragments()),
                ad as u32,
            ) {
                Some(i) => m.fragments()[i].2.mem().dom().contains(ad - m.fragments()[i].0),
                None => false,
            }),
        forall|ad: int|
            m.mem().dom().contains(ad) ==> #[trigger] m.mem()[ad] == ({
                let i = route_of(fragment_bases(m.fragments()), ad as u32).unwrap();
                m.fragments()[i].2.mem()[ad - m.fragments()[i].0]
            }),
        m.commits() <==> (forall|i: int|
            0 <= i < m.fragments().len() ==> (#[trigger] m.fragments()[i]).2.commits()),
{
    proof {
        use_type_invariant(m);
        reveal(wf_items);
        assert(fragment_bases(m.fragments()) =~= items_bases(m.items@));
        assert forall|a: u32, l: u32|
            #[trigger] m.range_ok(a, l) == match route_of(fragment_bases(m.fragments()), a) {
                Some(i) => m.fragments()[i].2.range_ok((a - m.fragments()[i].0) as u32, l),
                None => false,
            } by {
            let bases = items_bases(m.items@);
            assert(route_of(fragment_bases(m.fragments()), a) == route_of(bases, a));
            lemma_route_props::<S>(bases, a);
            match route_of(bases, a) {
                Some(i) => {
                    assert(m.fragments()[i].0 == m.items@[i].base);
                    assert(m.fragments()[i].2 == m.items@[i].store);
                },
                None => {},
            }
        }
        assert forall|ad: int|
            #[trigger] m.mem().dom().contains(ad) <==> (0 <= ad <= u32::MAX && match route_of(
                fragment_bases(m.fragments()),
                ad as u32,
            ) {
                Some(i) => m.fragments()[i].2.mem().dom().contains(ad - m.fragments()[i].0),
                None => false,
            }) by {
            let bases = items_bases(m.items@);
            assert(route_of(fragment_bases(m.fragments()), ad as u32) == route_of(
                bases,
                ad as u32,
            ));
            lemma_route_props::<S>(bases, ad as u32);
            match route_of(bases, ad as u32) {
                Some(i) => {
                    assert(m.fragments()[i].0 == m.items@[i].base);
                    assert(m.fragments()[i].2 == m.items@[i].store);
                },
                None => {},
            }
        }
        assert forall|ad: int| m.mem().dom().contains(ad) implies #[trigger] m.mem()[ad] == ({
            let i = route_of(fragment_bases(m.fragments()), ad as u32).unwrap();
            m.fragments()[i].2.mem()[ad - m.fragments()[i].0]
        }) by {
            let bases = items_bases(m.items@);
            assert(route_of(fragment_bases(m.fragments()), ad as u32) == route_of(
                bases,
                ad as u32,
            ));
            lemma_route_props::<S>(bases, ad as u32);
            match route_of(bases, ad as u32) {
                Some(i) => {
                    assert(m.fragments()[i].0 == m.items@[i].base);
                    assert(m.fragments()[i].2 == m.items@[i].store);
                },
                None => {},
            }
        }
        assert(m.commits() <==> (forall|i: int|
            0 <= i < m.fragments().len() ==> (#[trigger] m.fragments()[i]).2.commits())) by {
            if m.commits() {
                assert forall|i: int|
                    0 <= i < m.fragments().len() implies (
                #[trigger] m.fragments()[i]).2.commits() by {
                    assert(m.items@[i].store.commits());
                }
            } else {
                let j = choose|j: int|
                    0 <= j < m.items@.len() && !(#[trigger] m.items@[j]).store.commits();
                assert(!(#[trigger] m.fragments()[j]).2.commits());
            }
        }
    }
}

impl<S: StorageMut> Storage for CompositeMemory<S> {
    closed spec fn mem(&self) -> Map<int, u8> {
        items_mem(self.items@)
    }

    closed spec fn len(&self) -> nat {
        if self.items@.len() == 0 {
            0
        } else {
            (self.items@.last().base + self.items@.last().store.len()) as nat
        }
    }

    closed spec fn range_ok(&self, address: u32, size: u32) -> bool {
        items_range_ok(self.items@, address, size)
    }

    fn length(&self) -> (r: u32) {
        proof {
            use_type_invariant(self);
            reveal(wf_items);
        }
        let n = self.items.len();
        if n == 0 {
            0
        } else {
            self.items[n - 1].base + self.items[n - 1].store.length()
        }
    }

    fn check_range(&self, address: u32, length: u32) -> (r: bool) {
        proof {
            use_type_invariant(self);
            reveal(wf_items);
            assert(self.bases() =~= items_bases(self.items@));
        }
        match Self::find_route(&self.items, address) {
            None => false,
            Some(i) => {
                proof {
                    lemma_route_props::<S>(self.bases(), address);
                }
                let base = self.items[i].base;
                let ok = self.items[i].store.check_range(address - base, length);
                proof {
                    if ok {
                        let local = (address - base) as u32;
                        lemma_route_stable(self.items@, address, i as int, length);
                        if (i as int) < self.items@.len() - 1 {
                            lemma_chain_step(self.items@, i as int, self.items@.len() - 1);
                        }
                        assert forall|k: int| 0 <= k < length implies self.mem().dom().contains(
                            #[trigger] (address + k),
                        ) by {
                            assert(self.items@[i as int].store.mem().dom().contains(local + k));
                            assert(route_of(self.bases(), (address + k) as u32) == Some(i as int));
                        }
                    }
                }
                ok
            },
        }
    }

    fn read(&self, address: u32, size: u32) -> (r: Result<u32, ()>) {
        proof {
            use_type_invariant(self);
            reveal(wf_items);
            assert(self.bases() =~= items_bases(self.items@));
        }
        match Self::find_route(&self.items, address) {
            None => Err(()),
            Some(i) => {
                proof {
                    lemma_route_props::<S>(self.bases(), address);
                }
                let base = self.items[i].base;
                let res = self.items[i].store.read(address - base, size);
                proof {
                    if res is Ok {
                        let local = (address - base) as u32;
                        assert(address + size <= self.items@[i as int].base + self.items@[
                            i as int].store.len());
                        lemma_route_stable(self.items@, address, i as int, size);
                        if (i as int) < self.items@.len() - 1 {
                            lemma_chain_step(self.items@, i as int, self.items@.len() - 1);
                        }
                        assert(self.len() == self.items@[self.items@.len() - 1].base + self.items@[
                            self.items@.len() - 1].store.len());
                        assert(address + size <= self.len());
                        assert forall|k: int| 0 <= k < size implies self.mem().dom().contains(
                            #[trigger] (address + k),
                        ) by {
                            assert(self.items@[i as int].store.mem().dom().contains(local + k));
                            assert(route_of(self.bases(), (address + k) as u32) == Some(i as int));
                        }
                        assert(range_bytes(self.mem(), address, size) =~= range_bytes(
                            self.items@[i as int].store.mem(),
                            local,
                            size,
                        ));
                    }
                }
                res
            },
        }
    }
}

proof fn lemma_mem_unchanged<S: StorageMut>(pre: Seq<Frag<S>>, post: Seq<Frag<S>>)
    requires
        pre.len() == post.len(),
        forall|j: int|
            0 <= j < pre.len() ==> (#[trigger] post[j]).base == pre[j].base
                && post[j].store.mem() == pre[j].store.mem(),
    ensures
        items_mem(post) =~= items_mem(pre),
{
    assert(items_bases(post) =~= items_bases(pre));
    assert forall|ad: int| #![all_triggers] true implies ({
        &&& items_mem(post).dom().contains(ad) == items_mem(pre).dom().contains(ad)
        &&& items_mem(post).dom().contains(ad) ==> items_mem(post)[ad] == items_mem(pre)[ad]
    }) by {
        if 0 <= ad <= u32::MAX && route_of(items_bases(pre), ad as u32) is Some {
            let j = route_of(items_bases(pre), ad as u32).unwrap();
            lemma_route_props::<S>(items_bases(pre), ad as u32);
        }
    }
}

#[verifier::rlimit(100)]
#[verifier::spinoff_prover]
proof fn lemma_write_coherent<S: StorageMut>(
    pre: Seq<Frag<S>>,
    post: Seq<Frag<S>>,
    i: int,
    address: u32,
    size: u32,
    value: u32,
)
    requires
        wf_items(pre),
        1 <= size,
        route_of(items_bases(pre), address) == Some(i),
        0 <= i < pre.len(),
        post.len() == pre.len(),
        forall|j: int| 0 <= j < pre.len() && j != i ==> #[trigger] post[j] == pre[j],
        post[i].base == pre[i].base,
        post[i].store.mem() == write_bytes(
            pre[i].store.mem(),
            (address - pre[i].base) as u32,
            size,
            value,
        ),
        address + size <= pre[i].base + pre[i].store.len(),
        forall|k: int|
            0 <= k < size ==> pre[i].store.mem().dom().contains(
                #[trigger] ((address - pre[i].base) + k),
            ),
    ensures
        items_mem(post) =~= write_bytes(items_mem(pre), address, size, value),
{
    let bases = items_bases(pre);
    assert(items_bases(post) =~= bases);
    let base = pre[i].base;
    let local = (address - base) as u32;
    let child0 = pre[i].store;
    let child1 = post[i].store;
    lemma_route_props::<S>(bases, address);
    lemma_route_stable(pre, address, i, size);
    assert forall|ad: int| #![all_triggers] true implies ({
        &&& items_mem(post).dom().contains(ad) == write_bytes(
            items_mem(pre),
            address,
            size,
            value,
        ).dom().contains(ad)
        &&& items_mem(post).dom().contains(ad) ==> items_mem(post)[ad] == write_bytes(
            items_mem(pre),
            address,
            size,
            value,
        )[ad]
    }) by {
        if 0 <= ad <= u32::MAX && route_of(bases, ad as u32) is Some {
            let j = route_of(bases, ad as u32).unwrap();
            lemma_route_props::<S>(bases, ad as u32);
            if j == i {
                if address <= ad < address + size {
                    assert(child1.mem()[ad - base] == write_bytes(
                        child0.mem(),
                        local,
                        size,
                        value,
                    )[ad - base]);
                } else {
                    assert(!(local <= ad - base < local + size));
                }
            } else {
                assert(post[j] == pre[j]);
                assert(!(address <= ad < address + size)) by {
                    if address <= ad < address + size {
                        assert(route_of(bases, (address + (ad - address)) as u32) == Some(i));
                    }
                }
            }
        }
    }
}

impl<S: StorageMut> StorageMut for CompositeMemory<S> {
    closed spec fn commits(&self) -> bool {
        forall|i: int| 0 <= i < self.items@.len() ==> (#[trigger] self.items@[i]).store.commits()
    }

    #[verifier::rlimit(100)]
    #[verifier::spinoff_prover]
    fn write(&mut self, address: u32, size: u32, value: u32) -> (r: Result<(), ()>) {
        proof {
            use_type_invariant(&*self);
        }
        let ghost pre = *self;
        let mut items: Vec<Frag<S>> = Vec::new();
        proof {
            reveal(wf_items);
        }
        std::mem::swap(&mut items, &mut self.items);
        let route = Self::find_route(&items, address);
        let res: Result<(), ()> = match route {
            None => Err(()),
            Some(i) => {
                proof {
                    lemma_route_props::<S>(items_bases(items@), address);
                }
                let mut f = items.remove(i);
                let base = f.base;
                let inner = f.store.write(address - base, size, value);
                items.insert(i, f);
                proof {
                    assert(items@ =~= pre.items@.update(i as int, items@[i as int]));
                    assert(items@[i as int].base == pre.items@[i as int].base && items@[
                        i as int].key@ == pre.items@[i as int].key@ && items@[
                        i as int].store.len() == pre.items@[i as int].store.len());
                    assert(wf_items(items@)) by {
                        reveal(wf_items);
                        assert forall|j: int|
                            0 <= j < items@.len() implies (#[trigger] items@[j]).base
                                == pre.items@[j].base && items@[j].key@ == pre.items@[j].key@ && (
                            #[trigger] items@[j]).store.len() == pre.items@[j].store.len() by {}
                    }
                }
                inner
            },
        };
        proof {
            assert(wf_items(items@));
        }
        std::mem::swap(&mut items, &mut self.items);
        proof {
            self.lemma_write_post(pre, address, size, value, res);
        }
        res
    }
}

impl<S: StorageMut> CompositeMemory<S> {
    /// The write contract of the composite, given what the routed
    /// child's write established.
    #[verifier::rlimit(100)]
    #[verifier::spinoff_prover]
    proof fn lemma_write_post(
        &self,
        pre: CompositeMemory<S>,
        address: u32,
        size: u32,
        value: u32,
        res: Result<(), ()>,
    )
        requires
            1 <= size <= 4,
            wf_items(pre.items@),
            wf_items(self.items@),
            self.items@.len() == pre.items@.len(),
            match route_of(items_bases(pre.items@), address) {
                None => res is Err && self.items@ == pre.items@,
                Some(i) => {
                    let local = (address - pre.items@[i].base) as u32;
                    let child0 = pre.items@[i].store;
                    let child1 = self.items@[i].store;
                    &&& 0 <= i < pre.items@.len()
                    &&& pre.items@[i].base <= address
                    &&& forall|j: int|
                        0 <= j < pre.items@.len() && j != i ==> #[trigger] self.items@[j]
                            == pre.items@[j]
                    &&& self.items@[i].base == pre.items@[i].base
                    &&& self.items@[i].key@ == pre.items@[i].key@
                    &&& child1.len() == child0.len()
                    &&& child1.commits() == child0.commits()
                    &&& forall|a: u32, l: u32| child1.range_ok(a, l) == child0.range_ok(a, l)
                    &&& (res is Err ==> !child0.range_ok(local, size) && child1.mem()
                        == child0.mem())
                    &&& (child0.commits() ==> (res is Ok <==> child0.range_ok(local, size)))
                    &&& (res is Ok && child0.range_ok(local, size) ==> local + size
                        <= child0.len() && (forall|k: int|
                        0 <= k < size ==> child0.mem().dom().contains(#[trigger] (local + k))))
                    &&& (res is Ok ==> child1.mem() == child0.mem() || (child0.range_ok(
                        local,
                        size,
                    ) && child1.mem() == write_bytes(child0.mem(), local, size, value)))
                    &&& (res is Ok && child0.commits() ==> child1.mem() == write_bytes(
                        child0.mem(),
                        local,
                        size,
                        value,
                    ))
                },
            },
        ensures
            self.len() == pre.len(),
            self.commits() == pre.commits(),
            forall|a: u32, l: u32| self.range_ok(a, l) == pre.range_ok(a, l),
            res is Err ==> !pre.range_ok(address, size) && self.mem() == pre.mem(),
            pre.commits() ==> (res is Ok <==> pre.range_ok(address, size)),
            res is Ok && pre.range_ok(address, size) ==> address + size <= pre.len() && (forall|
                k: int,
            |
                0 <= k < size ==> pre.mem().dom().contains(#[trigger] (address + k))),
            res is Ok ==> self.mem() == pre.mem() || (pre.range_ok(address, size) && self.mem()
                == write_bytes(pre.mem(), address, size, value)),
            res is Ok && pre.commits() ==> self.mem() == write_bytes(
                pre.mem(),
                address,
                size,
                value,
            ),
    {
        reveal(wf_items);
        assert(items_bases(self.items@) =~= items_bases(pre.items@));
        assert forall|j: int|
            0 <= j < pre.items@.len() implies (#[trigger] self.items@[j]).base
                == pre.items@[j].base && self.items@[j].store.len()
                == pre.items@[j].store.len() && self.items@[j].store.commits()
                == pre.items@[j].store.commits() by {}
        assert(self.len() == pre.len());
        assert(self.commits() == pre.commits()) by {
            if pre.commits() {
                assert forall|j: int|
                    0 <= j < self.items@.len() implies (
                #[trigger] self.items@[j]).store.commits() by {
                    assert(pre.items@[j].store.commits());
                }
            } else {
                let j = choose|j: int|
                    0 <= j < pre.items@.len() && !(#[trigger] pre.items@[j]).store.commits();
                assert(!self.items@[j].store.commits());
            }
        }
        match route_of(items_bases(pre.items@), address) {
            None => {
                assert(!pre.range_ok(address, size));
                lemma_mem_unchanged(pre.items@, self.items@);
            },
            Some(i) => {
                lemma_route_props::<S>(items_bases(pre.items@), address);
                let local = (address - pre.items@[i].base) as u32;
                let child0 = pre.items@[i].store;
                let child1 = self.items@[i].store;
                assert forall|a: u32, l: u32| self.range_ok(a, l) == pre.range_ok(a, l) by {
                    assert(route_of(items_bases(self.items@), a) == route_of(
                        items_bases(pre.items@),
                        a,
                    ));
                    lemma_route_props::<S>(items_bases(pre.items@), a);
                    match route_of(items_bases(pre.items@), a) {
                        Some(j) => {
                            if j != i {
                                assert(self.items@[j] == pre.items@[j]);
                            }
                        },
                        None => {},
                    }
                }
                assert(child0.commits() ==> pre.commits() == pre.commits());
                if pre.commits() {
                    assert(child0.commits());
                }
                if res is Ok && child0.range_ok(local, size) {
                    assert(local + size <= child0.len());
                    assert(address + size <= pre.items@[i].base + pre.items@[i].store.len());
                    assert(address + size <= pre.len()) by {
                        if i < pre.items@.len() - 1 {
                            lemma_chain_step(pre.items@, i, pre.items@.len() - 1);
                        }
                    }
                    lemma_route_stable(pre.items@, address, i, size);
                    assert forall|k: int|
                        0 <= k < size implies pre.mem().dom().contains(
                        #[trigger] (address + k),
                    ) by {
                        assert(child0.mem().dom().contains(local + k));
                        assert(route_of(items_bases(pre.items@), (address + k) as u32) == Some(i));
                    }
                }
                if res is Err || child1.mem() == child0.mem() {
                    lemma_mem_unchanged(pre.items@, self.items@);
                    assert(self.mem() =~= pre.mem());
                }
                if res is Ok && child1.mem() != child0.mem() {
                    assert(child0.range_ok(local, size) && child1.mem() == write_bytes(
                        child0.mem(),
                        local,
                        size,
                        value,
                    ));
                    assert(pre.range_ok(address, size));
                    lemma_write_coherent(pre.items@, self.items@, i, address, size, value);
                    assert(self.mem() =~= write_bytes(pre.mem(), address, size, value));
                }
                if res is Ok && pre.commits() && child1.mem() == child0.mem() {
                    assert(child1.mem() == write_bytes(child0.mem(), local, size, value));
                    lemma_write_coherent(pre.items@, self.items@, i, address, size, value);
                    assert(self.mem() =~= write_bytes(pre.mem(), address, size, value));
                }
            },
        }
    }
}

} // verus!
