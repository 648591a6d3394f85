//! Label tables: the bindings from label names to byte offsets (data
//! labels) or instruction indices (code labels) that pass one collects
//! and pass two resolves.

use vstd::prelude::*;

verus! {

/// The binding a name carries in a label table: the value bound to the
/// most recent binding of that name, if any.
pub open spec fn spec_get(entries: Seq<(Seq<u8>, u32)>, name: Seq<u8>) -> Option<u32>
    decreases entries.len(),
{
    if entries.len() == 0 {
        None
    } else if entries[0].0 == name {
        Some(entries[0].1)
    } else {
        spec_get(entries.drop_first(), name)
    }
}

/// A table of label bindings; a later binding of the same name shadows
/// an earlier one.
pub struct LabelMap {
    entries: Vec<(Vec<u8>, u32)>,
}

/// Whether two byte strings hold the same bytes.
pub fn bytes_eq(a: &[u8], b: &[u8]) -> (r: bool)
    ensures
        r == (a@ == b@),
{
    let n = a.len();
    if n != b.len() {
        proof {
            assert(a@ != b@);
        }
        return false;
    }
    let mut i: usize = 0;
    while i < n
        invariant
            i <= n,
            n == a@.len() == b@.len(),
            forall|k: int| 0 <= k < i ==> a@[k] == b@[k],
        decreases n - i,
    {
        if a[i] != b[i] {
            return false;
        }
        i = i + 1;
    }
    proof {
        assert(a@ =~= b@);
    }
    true
}

impl LabelMap {
    /// The bindings, most recent first.
    pub closed spec fn view(&self) -> Seq<(Seq<u8>, u32)> {
        Seq::new(self.entries@.len(), |i: int| (self.entries@[i].0@, self.entries@[i].1))
    }

    /// An empty table.
    pub fn new() -> (r: LabelMap)
        ensures
            r@ =~= Seq::<(Seq<u8>, u32)>::empty(),
    {
        let r = LabelMap { entries: Vec::new() };
        proof {
            assert(r@ =~= Seq::<(Seq<u8>, u32)>::empty());
        }
        r
    }

    /// Binds `name` to `value`, shadowing any earlier binding.
    pub fn insert(&mut self, name: Vec<u8>, value: u32)
        ensures
            final(self)@ == seq![(name@, value)] + old(self)@,
            final(self)@.len() == old(self)@.len() + 1,
            spec_get(final(self)@, name@) == Some(value),
            forall|n: Seq<u8>|
                n != name@ ==> #[trigger] spec_get(final(self)@, n) == spec_get(old(self)@, n),
    {
        let ghost pre = self@;
        self.entries.insert(0, (name, value));
        proof {
            assert(self@ =~= seq![(name@, value)] + pre);
            assert(self@.drop_first() =~= pre);
            assert forall|n: Seq<u8>|
                n != name@ implies #[trigger] spec_get(self@, n) == spec_get(pre, n) by {}
        }
    }

    /// The value bound to `name`, if any.
    pub fn get(&self, name: &[u8]) -> (r: Option<u32>)
        ensures
            r == spec_get(self@, name@),
    {
        let n = self.entries.len();
        proof {
            assert(self@.skip(0) =~= self@);
        }
        let mut i: usize = 0;
        while i < n
            invariant
                i <= n,
                n == self.entries@.len(),
                spec_get(self@, name@) == spec_get(self@.skip(i as int), name@),
        decreases n - i,
        {
            proof {
                assert(self@.skip(i as int).drop_first() =~= self@.skip(i + 1));
                assert(self@.skip(i as int)[0] == self@[i as int]);
            }
            if bytes_eq(self.entries[i].0.as_slice(), name) {
                return Some(self.entries[i].1);
            }
            i = i + 1;
        }
        proof {
            assert(self@.skip(n as int) =~= Seq::<(Seq<u8>, u32)>::empty());
        }
        None
    }
}

} // verus!
