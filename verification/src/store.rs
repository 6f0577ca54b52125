//! Tables keyed by byte strings.
//!
//! A table keeps its entries in the order in which their keys first arrived,
//! so that walking it never depends on anything but the calls made on it.

use vstd::prelude::*;

verus! {

/// Whether two byte strings hold the same bytes.
pub fn bytes_eq(a: &[u8], b: &[u8]) -> (same: bool)
    ensures
        same == (a@ == b@),
{
    if a.len() != b.len() {
        return false;
    }
    let mut i: usize = 0;
    while i < a.len()
        invariant
            a@.len() == b@.len(),
            i <= a@.len(),
            forall|j: int| 0 <= j < i ==> a@[j] == b@[j],
        decreases a@.len() - i,
    {
        if a[i] != b[i] {
            return false;
        }
        i += 1;
    }
    assert(a@ =~= b@);
    true
}

/// A copy of a byte string.
pub fn bytes_to_vec(a: &[u8]) -> (copy: Vec<u8>)
    ensures
        copy@ == a@,
{
    let mut copy: Vec<u8> = Vec::new();
    let mut i: usize = 0;
    while i < a.len()
        invariant
            i <= a@.len(),
            copy@ == a@.take(i as int),
        decreases a@.len() - i,
    {
        copy.push(a[i]);
        i += 1;
        assert(copy@ =~= a@.take(i as int));
    }
    assert(a@.take(a@.len() as int) =~= a@);
    copy
}

/// Whether some entry of `entries` has the key `key`.
spec fn has_key<V>(entries: Seq<(Vec<u8>, V)>, key: Seq<u8>) -> bool {
    exists|i: int| 0 <= i < entries.len() && (#[trigger] entries[i]).0@ == key
}

/// The position of an entry with the key `key`, where there is one.
spec fn position<V>(entries: Seq<(Vec<u8>, V)>, key: Seq<u8>) -> int {
    choose|i: int| 0 <= i < entries.len() && (#[trigger] entries[i]).0@ == key
}

/// No two entries share a key.
spec fn keys_distinct<V>(entries: Seq<(Vec<u8>, V)>) -> bool {
    forall|i: int, j: int|
        0 <= i < entries.len() && 0 <= j < entries.len() && i != j ==> (#[trigger] entries[i]).0@
            != (#[trigger] entries[j]).0@
}

/// The map that a sequence of entries with distinct keys stands for.
spec fn entries_map<V: View>(entries: Seq<(Vec<u8>, V)>) -> Map<Seq<u8>, V::V> {
    Map::new(
        |key: Seq<u8>| has_key(entries, key),
        |key: Seq<u8>| entries[position(entries, key)].1@,
    )
}

/// With distinct keys, the entry at `i` is the one its key is mapped to.
proof fn lemma_entry_is_mapped<V: View>(entries: Seq<(Vec<u8>, V)>, i: int)
    requires
        keys_distinct(entries),
        0 <= i < entries.len(),
    ensures
        entries_map(entries).contains_key(entries[i].0@),
        entries_map(entries)[entries[i].0@] == entries[i].1@,
        position(entries, entries[i].0@) == i,
{
    let key = entries[i].0@;
    assert(has_key(entries, key));
    let p = position(entries, key);
    assert(0 <= p < entries.len() && entries[p].0@ == key);
}

/// A finite map from byte strings to values, held as a list of entries.
pub struct Table<V> {
    entries: Vec<(Vec<u8>, V)>,
}

impl<V: View> View for Table<V> {
    type V = Map<Seq<u8>, V::V>;

    closed spec fn view(&self) -> Map<Seq<u8>, V::V> {
        entries_map(self.entries@)
    }
}

impl<V> Table<V> {
    #[verifier::type_invariant]
    spec fn well_formed(self) -> bool {
        keys_distinct(self.entries@)
    }
}

impl<V: View> Table<V> {
    /// The empty table.
    pub fn new() -> (table: Self)
        ensures
            table@ == Map::<Seq<u8>, V::V>::empty(),
    {
        let table = Table { entries: Vec::new() };
        assert(table@ =~= Map::<Seq<u8>, V::V>::empty());
        table
    }

    /// The position of `key` among the entries.
    fn find(&self, key: &[u8]) -> (found: Option<usize>)
        ensures
            match found {
                Some(i) => i < self.entries@.len() && self.entries@[i as int].0@ == key@,
                None => !has_key(self.entries@, key@),
            },
    {
        let mut i: usize = 0;
        while i < self.entries.len()
            invariant
                i <= self.entries@.len(),
                forall|j: int| 0 <= j < i ==> (#[trigger] self.entries@[j]).0@ != key@,
            decreases self.entries@.len() - i,
        {
            if bytes_eq(self.entries[i].0.as_slice(), key) {
                return Some(i);
            }
            i += 1;
        }
        None
    }

    /// Whether `key` is mapped.
    pub fn contains_key(&self, key: &[u8]) -> (present: bool)
        ensures
            present == self@.contains_key(key@),
    {
        self.find(key).is_some()
    }

    /// The value that `key` is mapped to.
    pub fn get(&self, key: &[u8]) -> (value: Option<&V>)
        ensures
            match value {
                Some(v) => self@.contains_key(key@) && self@[key@] == v@,
                None => !self@.contains_key(key@),
            },
    {
        match self.find(key) {
            Some(i) => {
                proof {
                    use_type_invariant(self);
                    lemma_entry_is_mapped(self.entries@, i as int);
                }
                Some(&self.entries[i].1)
            },
            None => None,
        }
    }

    /// Maps `key` to `value`, in place of what it was mapped to before.
    pub fn insert(&mut self, key: Vec<u8>, value: V)
        ensures
            final(self)@ == old(self)@.insert(key@, value@),
    {
        proof {
            use_type_invariant(&*self);
        }
        let ghost before = self.entries@;
        let found = self.find(key.as_slice());
        let mut entries: Vec<(Vec<u8>, V)> = Vec::new();
        core::mem::swap(&mut self.entries, &mut entries);
        match found {
            Some(i) => {
                entries[i] = (key, value);
                proof {
                    let after = entries@;
                    assert(keys_distinct(after)) by {
                        assert forall|a: int, b: int|
                            0 <= a < after.len() && 0 <= b < after.len() && a != b implies (
                        #[trigger] after[a]).0@ != (#[trigger] after[b]).0@ by {
                            assert(after[a].0@ == before[a].0@);
                            assert(after[b].0@ == before[b].0@);
                        }
                    }
                    assert(entries_map(after) =~= entries_map(before).insert(key@, value@)) by {
                        assert forall|k: Seq<u8>| has_key(after, k) <==> (has_key(before, k) || k
                            == key@) by {
                            if has_key(after, k) {
                                let p = position(after, k);
                                assert(before[p].0@ == k);
                            }
                            if has_key(before, k) {
                                let p = position(before, k);
                                assert(after[p].0@ == k);
                            }
                            if k == key@ {
                                assert(after[i as int].0@ == k);
                            }
                        }
                        assert forall|k: Seq<u8>| has_key(after, k) implies entries_map(after)[k]
                            == entries_map(before).insert(key@, value@)[k] by {
                            let p = position(after, k);
                            lemma_entry_is_mapped(after, p);
                            if p != i {
                                assert(before[p] == after[p]);
                                lemma_entry_is_mapped(before, p);
                            }
                        }
                    }
                }
            },
            None => {
                entries.push((key, value));
                proof {
                    let after = entries@;
                    let last = before.len() as int;
                    assert(keys_distinct(after)) by {
                        assert forall|a: int, b: int|
                            0 <= a < after.len() && 0 <= b < after.len() && a != b implies (
                        #[trigger] after[a]).0@ != (#[trigger] after[b]).0@ by {
                            if a < last {
                                assert(after[a] == before[a]);
                            }
                            if b < last {
                                assert(after[b] == before[b]);
                            }
                        }
                    }
                    assert(entries_map(after) =~= entries_map(before).insert(key@, value@)) by {
                        assert forall|k: Seq<u8>| has_key(after, k) <==> (has_key(before, k) || k
                            == key@) by {
                            if has_key(after, k) {
                                let p = position(after, k);
                                if p < last {
                                    assert(before[p].0@ == k);
                                }
                            }
                            if has_key(before, k) {
                                let p = position(before, k);
                                assert(after[p].0@ == k);
                            }
                            if k == key@ {
                                assert(after[last].0@ == k);
                            }
                        }
                        assert forall|k: Seq<u8>| has_key(after, k) implies entries_map(after)[k]
                            == entries_map(before).insert(key@, value@)[k] by {
                            let p = position(after, k);
                            lemma_entry_is_mapped(after, p);
                            if p < last {
                                assert(before[p] == after[p]);
                                lemma_entry_is_mapped(before, p);
                            }
                        }
                    }
                }
            },
        }
        self.entries = entries;
    }

    /// Takes `key` and what it was mapped to out of the table.
    pub fn remove(&mut self, key: &[u8])
        ensures
            final(self)@ == old(self)@.remove(key@),
    {
        proof {
            use_type_invariant(&*self);
        }
        let ghost before = self.entries@;
        let found = self.find(key);
        let mut entries: Vec<(Vec<u8>, V)> = Vec::new();
        core::mem::swap(&mut self.entries, &mut entries);
        match found {
            Some(i) => {
                entries.remove(i);
                proof {
                    let after = entries@;
                    let at = i as int;
                    assert forall|a: int| 0 <= a < after.len() implies #[trigger] after[a] == before[if a
                        < at { a } else { a + 1 }] by {}
                    assert(keys_distinct(after)) by {
                        assert forall|a: int, b: int|
                            0 <= a < after.len() && 0 <= b < after.len() && a != b implies (
                        #[trigger] after[a]).0@ != (#[trigger] after[b]).0@ by {
                            let a0 = if a < at { a } else { a + 1 };
                            let b0 = if b < at { b } else { b + 1 };
                            assert(after[a] == before[a0]);
                            assert(after[b] == before[b0]);
                        }
                    }
                    assert(entries_map(after) =~= entries_map(before).remove(key@)) by {
                        assert forall|k: Seq<u8>| has_key(after, k) <==> (has_key(before, k) && k
                            != key@) by {
                            if has_key(after, k) {
                                let p = position(after, k);
                                let p0 = if p < at { p } else { p + 1 };
                                assert(after[p] == before[p0]);
                                assert(before[p0].0@ == k);
                            }
                            if has_key(before, k) && k != key@ {
                                let p = position(before, k);
                                let q = if p < at { p } else { p - 1 };
                                assert(after[q] == before[p]);
                                assert(after[q].0@ == k);
                            }
                        }
                        assert forall|k: Seq<u8>| has_key(after, k) implies entries_map(after)[k]
                            == entries_map(before)[k] by {
                            let p = position(after, k);
                            let p0 = if p < at { p } else { p + 1 };
                            assert(after[p] == before[p0]);
                            lemma_entry_is_mapped(after, p);
                            lemma_entry_is_mapped(before, p0);
                        }
                    }
                }
            },
            None => {
                assert(entries_map(before).remove(key@) =~= entries_map(before));
            },
        }
        self.entries = entries;
    }
}

} // verus!
