//! The flat mapping: the single byte-keyed container that holds every
//! column's data, disambiguated only through composite keys.
//!
//! It is kept as an unordered list of entries with pairwise-distinct keys
//! and is viewed as a `Map` from key bytes to value bytes.

use vstd::prelude::*;

verus! {

/// One (composite key, value) pair of the flat mapping.
pub struct Entry {
    pub key: Vec<u8>,
    pub value: Vec<u8>,
}

/// The flat mapping itself.
pub struct FlatStore {
    entries: Vec<Entry>,
}

/// The map that a sequence of entries denotes; a later entry for the same
/// key would overwrite an earlier one.
pub open spec fn entry_map(s: Seq<Entry>) -> Map<Seq<u8>, Seq<u8>>
    decreases s.len(),
{
    if s.len() == 0 {
        Map::empty()
    } else {
        entry_map(s.drop_last()).insert(s.last().key@, s.last().value@)
    }
}

/// No two entries share a key.
pub open spec fn unique_keys(s: Seq<Entry>) -> bool {
    forall|i: int, j: int| 0 <= i < j < s.len() ==> s[i].key@ != s[j].key@
}

/// A key occurs in the denoted map exactly when some entry carries it.
proof fn lemma_entry_map_contains(s: Seq<Entry>, k: Seq<u8>)
    ensures
        entry_map(s).contains_key(k) <==> exists|i: int| 0 <= i < s.len() && s[i].key@ == k,
    decreases s.len(),
{
    if s.len() > 0 {
        lemma_entry_map_contains(s.drop_last(), k);
        if s.last().key@ == k {
            assert(s[s.len() - 1].key@ == k);
        } else {
            if exists|i: int| 0 <= i < s.drop_last().len() && s.drop_last()[i].key@ == k {
                let i = choose|i: int| 0 <= i < s.drop_last().len() && s.drop_last()[i].key@ == k;
                assert(s[i].key@ == k);
            }
            if exists|i: int| 0 <= i < s.len() && s[i].key@ == k {
                let i = choose|i: int| 0 <= i < s.len() && s[i].key@ == k;
                assert(s.drop_last()[i].key@ == k);
            }
        }
    }
}

/// Under unique keys, the denoted map sends each entry's key to its value.
proof fn lemma_entry_map_index(s: Seq<Entry>, i: int)
    requires
        unique_keys(s),
        0 <= i < s.len(),
    ensures
        entry_map(s).contains_key(s[i].key@),
        entry_map(s)[s[i].key@] == s[i].value@,
    decreases s.len(),
{
    if i < s.len() - 1 {
        assert(unique_keys(s.drop_last())) by {
            assert(forall|x: int, y: int|
                0 <= x < y < s.drop_last().len() ==> s.drop_last()[x] == s[x] && s.drop_last()[y]
                    == s[y]);
        }
        lemma_entry_map_index(s.drop_last(), i);
        assert(s.drop_last()[i] == s[i]);
        assert(s[i].key@ != s.last().key@);
    }
}

/// Replacing the entry that carries a key overwrites that key in the map.
proof fn lemma_entry_map_update(s: Seq<Entry>, i: int, e: Entry)
    requires
        unique_keys(s),
        0 <= i < s.len(),
        e.key@ == s[i].key@,
    ensures
        entry_map(s.update(i, e)) == entry_map(s).insert(e.key@, e.value@),
        unique_keys(s.update(i, e)),
    decreases s.len(),
{
    let t = s.update(i, e);
    assert(t.len() == s.len());
    assert(forall|x: int, y: int| 0 <= x < y < t.len() ==> t[x].key@ != t[y].key@) by {
        assert(forall|x: int| 0 <= x < t.len() ==> t[x].key@ == s[x].key@);
    }
    if i == s.len() - 1 {
        assert(t.drop_last() =~= s.drop_last());
        assert(entry_map(t) == entry_map(s.drop_last()).insert(e.key@, e.value@));
        assert(entry_map(s).insert(e.key@, e.value@) =~= entry_map(s.drop_last()).insert(
            e.key@,
            e.value@,
        ));
    } else {
        assert(unique_keys(s.drop_last())) by {
            assert(forall|x: int, y: int|
                0 <= x < y < s.drop_last().len() ==> s.drop_last()[x] == s[x] && s.drop_last()[y]
                    == s[y]);
        }
        lemma_entry_map_update(s.drop_last(), i, e);
        assert(t.drop_last() =~= s.drop_last().update(i, e));
        assert(t.last() == s.last());
        assert(entry_map(t) == entry_map(s.drop_last()).insert(e.key@, e.value@).insert(
            s.last().key@,
            s.last().value@,
        ));
        // The two inserted keys differ, so the inserts commute.
        assert(s[i].key@ != s.last().key@);
        assert(entry_map(s.drop_last()).insert(e.key@, e.value@).insert(s.last().key@, s.last().value@)
            =~= entry_map(s.drop_last()).insert(s.last().key@, s.last().value@).insert(
            e.key@,
            e.value@,
        ));
    }
}

/// Appending an entry for a fresh key inserts that key into the map.
proof fn lemma_entry_map_push(s: Seq<Entry>, e: Entry)
    requires
        unique_keys(s),
        forall|i: int| 0 <= i < s.len() ==> s[i].key@ != e.key@,
    ensures
        entry_map(s.push(e)) == entry_map(s).insert(e.key@, e.value@),
        unique_keys(s.push(e)),
{
    let t = s.push(e);
    assert(t.drop_last() =~= s);
    assert(t.last() == e);
    assert(forall|x: int, y: int| 0 <= x < y < t.len() ==> t[x].key@ != t[y].key@) by {
        assert(forall|x: int| 0 <= x < s.len() ==> t[x] == s[x]);
        assert(t[t.len() - 1] == e);
    }
}

/// Removing the entry that carries a key removes that key from the map.
proof fn lemma_entry_map_remove(s: Seq<Entry>, i: int)
    requires
        unique_keys(s),
        0 <= i < s.len(),
    ensures
        entry_map(s.remove(i)) == entry_map(s).remove(s[i].key@),
        unique_keys(s.remove(i)),
    decreases s.len(),
{
    let t = s.remove(i);
    assert(forall|x: int| 0 <= x < i ==> t[x] == s[x]);
    assert(forall|x: int| i <= x < t.len() ==> t[x] == s[x + 1]);
    assert(forall|x: int, y: int| 0 <= x < y < t.len() ==> t[x].key@ != t[y].key@);
    if i == s.len() - 1 {
        assert(t =~= s.drop_last());
        lemma_entry_map_contains(s.drop_last(), s[i].key@);
        assert(forall|x: int| 0 <= x < s.drop_last().len() ==> s.drop_last()[x].key@ != s[i].key@);
        assert(!entry_map(s.drop_last()).contains_key(s[i].key@));
        assert(entry_map(s).remove(s[i].key@) =~= entry_map(s.drop_last()));
    } else {
        assert(unique_keys(s.drop_last())) by {
            assert(forall|x: int, y: int|
                0 <= x < y < s.drop_last().len() ==> s.drop_last()[x] == s[x] && s.drop_last()[y]
                    == s[y]);
        }
        lemma_entry_map_remove(s.drop_last(), i);
        assert(t.drop_last() =~= s.drop_last().remove(i));
        assert(t.last() == s.last());
        assert(entry_map(t) == entry_map(s.drop_last()).remove(s[i].key@).insert(
            s.last().key@,
            s.last().value@,
        ));
        assert(s[i].key@ != s.last().key@);
        assert(entry_map(s.drop_last()).remove(s[i].key@).insert(s.last().key@, s.last().value@)
            =~= entry_map(s.drop_last()).insert(s.last().key@, s.last().value@).remove(s[i].key@));
    }
}

/// Byte-for-byte equality of two slices.
pub fn bytes_eq(a: &[u8], b: &[u8]) -> (r: bool)
    ensures
        r == (a@ == b@),
{
    if a.len() != b.len() {
        return false;
    }
    let mut i: usize = 0;
    while i < a.len()
        invariant
            i <= a@.len(),
            a@.len() == b@.len(),
            forall|j: int| 0 <= j < i ==> a@[j] == b@[j],
        decreases a@.len() - i,
    {
        if a[i] != b[i] {
            return false;
        }
        i = i + 1;
    }
    proof {
        assert(a@ =~= b@);
    }
    true
}

impl FlatStore {
    /// Pairwise-distinct keys; every operation preserves this.
    pub closed spec fn wf(&self) -> bool {
        unique_keys(self.entries@)
    }

    /// An empty flat mapping.
    pub fn new() -> (s: Self)
        ensures
            s@ == Map::<Seq<u8>, Seq<u8>>::empty(),
            s.wf(),
    {
        FlatStore { entries: Vec::new() }
    }

    /// The index of the entry carrying `key`, if one does.
    fn find(&self, key: &[u8]) -> (r: Option<usize>)
        ensures
            match r {
                Some(i) => i < self.entries@.len() && self.entries@[i as int].key@ == key@,
                None => forall|i: int| 0 <= i < self.entries@.len() ==> self.entries@[i].key@ != key@,
            },
    {
        let mut i: usize = 0;
        while i < self.entries.len()
            invariant
                i <= self.entries@.len(),
                forall|j: int| 0 <= j < i ==> self.entries@[j].key@ != key@,
            decreases self.entries@.len() - i,
        {
            if bytes_eq(self.entries[i].key.as_slice(), key) {
                return Some(i);
            }
            i = i + 1;
        }
        None
    }

    /// The value stored under `key`, if any, copied out.
    pub fn get_value(&self, key: &[u8]) -> (r: Option<Vec<u8>>)
        requires
            self.wf(),
        ensures
            match r {
                Some(v) => self@.contains_key(key@) && v@ == self@[key@],
                None => !self@.contains_key(key@),
            },
    {
        proof {
            lemma_entry_map_contains(self.entries@, key@);
        }
        match self.find(key) {
            Some(i) => {
                proof {
                    lemma_entry_map_index(self.entries@, i as int);
                }
                Some(vstd::slice::slice_to_vec(self.entries[i].value.as_slice()))
            },
            None => None,
        }
    }

    /// Whether any value is stored under `key`.
    pub fn contains(&self, key: &[u8]) -> (r: bool)
        requires
            self.wf(),
        ensures
            r == self@.contains_key(key@),
    {
        proof {
            lemma_entry_map_contains(self.entries@, key@);
        }
        match self.find(key) {
            Some(i) => {
                proof {
                    lemma_entry_map_index(self.entries@, i as int);
                }
                true
            },
            None => false,
        }
    }

    /// Stores `value` under `key`, overwriting any previous value.
    pub fn set_value(&mut self, key: Vec<u8>, value: Vec<u8>)
        requires
            old(self).wf(),
        ensures
            final(self).wf(),
            final(self)@ == old(self)@.insert(key@, value@),
    {
        match self.find(key.as_slice()) {
            Some(i) => {
                proof {
                    lemma_entry_map_update(self.entries@, i as int, (Entry { key, value }));
                }
                self.entries.set(i, Entry { key, value });
            },
            None => {
                proof {
                    lemma_entry_map_push(self.entries@, (Entry { key, value }));
                }
                self.entries.push(Entry { key, value });
            },
        }
    }

    /// Removes the entry under `key`; removing an absent key changes nothing.
    pub fn remove(&mut self, key: &[u8])
        requires
            old(self).wf(),
        ensures
            final(self).wf(),
            final(self)@ == old(self)@.remove(key@),
    {
        match self.find(key) {
            Some(i) => {
                proof {
                    lemma_entry_map_remove(self.entries@, i as int);
                }
                self.entries.remove(i);
            },
            None => {
                proof {
                    lemma_entry_map_contains(self.entries@, key@);
                    assert(self@.remove(key@) =~= self@);
                }
            },
        }
    }
}

impl View for FlatStore {
    type V = Map<Seq<u8>, Seq<u8>>;

    closed spec fn view(&self) -> Map<Seq<u8>, Seq<u8>> {
        entry_map(self.entries@)
    }
}

} // verus!
