//! An index from file paths, held as the bytes of the operating system's
//! encoding, to node indices.
use vstd::prelude::*;

verus! {

/// The map that a list of recorded entries stands for: a later entry for the
/// same path replaces an earlier one.
pub open spec fn entries_map(entries: Seq<(Vec<u8>, usize)>) -> Map<Seq<u8>, usize>
    decreases entries.len(),
{
    if entries.len() == 0 {
        Map::empty()
    } else {
        entries_map(entries.drop_last()).insert(entries.last().0@, entries.last().1)
    }
}

/// A path is in the map exactly when some entry records it.
pub proof fn entries_map_dom(entries: Seq<(Vec<u8>, usize)>, key: Seq<u8>)
    ensures
        entries_map(entries).dom().contains(key) <==> exists|k: int|
            0 <= k < entries.len() && (#[trigger] entries[k]).0@ == key,
    decreases entries.len(),
{
    if entries.len() > 0 {
        let init = entries.drop_last();
        entries_map_dom(init, key);
        if exists|k: int| 0 <= k < entries.len() && (#[trigger] entries[k]).0@ == key {
            let k = choose|k: int| 0 <= k < entries.len() && (#[trigger] entries[k]).0@ == key;
            if k < entries.len() - 1 {
                assert(init[k] == entries[k]);
            }
        }
        if exists|k: int| 0 <= k < init.len() && (#[trigger] init[k]).0@ == key {
            let k = choose|k: int| 0 <= k < init.len() && (#[trigger] init[k]).0@ == key;
            assert(entries[k] == init[k]);
        }
    }
}

/// Paths mapped to node indices.
pub struct PathIndex {
    entries: Vec<(Vec<u8>, usize)>,
}

impl View for PathIndex {
    type V = Map<Seq<u8>, usize>;

    closed spec fn view(&self) -> Map<Seq<u8>, usize> {
        entries_map(self.entries@)
    }
}

/// Whether two byte strings are equal.
fn same_bytes(a: &[u8], b: &[u8]) -> (r: bool)
    ensures
        r == (a@ == b@),
{
    if a.len() != b.len() {
        return false;
    }
    let mut i: usize = 0;
    while i < a.len()
        invariant
            i <= a@.len(),
            a@.len() == b@.len(),
            forall|j: int| 0 <= j < i ==> a@[j] == b@[j],
        decreases a@.len() - i,
    {
        if a[i] != b[i] {
            return false;
        }
        i = i + 1;
    }
    assert(a@ =~= b@);
    true
}

impl PathIndex {
    /// An empty index.
    pub fn new() -> (index: PathIndex)
        ensures
            index@ == Map::<Seq<u8>, usize>::empty(),
    {
        PathIndex { entries: Vec::new() }
    }

    /// Maps `path` to `ix`, replacing what it was mapped to.
    pub fn insert(&mut self, path: Vec<u8>, ix: usize)
        ensures
            final(self)@ == old(self)@.insert(path@, ix),
    {
        let ghost before = self.entries@;
        self.entries.push((path, ix));
        assert(self.entries@.drop_last() =~= before);
    }

    /// Whether `path` is mapped.
    pub fn contains_key(&self, path: &[u8]) -> (b: bool)
        ensures
            b == self@.dom().contains(path@),
    {
        proof {
            entries_map_dom(self.entries@, path@);
        }
        let mut i: usize = 0;
        while i < self.entries.len()
            invariant
                i <= self.entries@.len(),
                forall|j: int| 0 <= j < i ==> (#[trigger] self.entries@[j]).0@ != path@,
                self@.dom().contains(path@) <==> exists|k: int|
                    0 <= k < self.entries@.len() && (#[trigger] self.entries@[k]).0@ == path@,
            decreases self.entries@.len() - i,
        {
            if same_bytes(self.entries[i].0.as_slice(), path) {
                assert(self.entries@[i as int].0@ == path@);
                return true;
            }
            i = i + 1;
        }
        false
    }
}

} // verus!
