//! A table keyed by strings, kept as a vector in which no key occurs twice.

use vstd::prelude::*;

verus! {

/// One key of a [`Table`] with the value stored under it.
struct Entry<T> {
    key: String,
    value: T,
}

/// A finite map from strings to values of `T`.
///
/// Its view is the map itself; the vector behind it never holds a key twice,
/// which is kept as the type's invariant.
pub struct Table<T> {
    entries: Vec<Entry<T>>,
}

/// `entries[i]` exists and carries `key`.
spec fn holds_key<T>(entries: Seq<Entry<T>>, key: Seq<char>, i: int) -> bool {
    0 <= i < entries.len() && entries[i].key@ == key
}

/// No two entries carry the same key.
spec fn keys_distinct<T>(entries: Seq<Entry<T>>) -> bool {
    forall|i: int, j: int|
        0 <= i < j < entries.len() ==> (#[trigger] entries[i]).key@ != (#[trigger] entries[j]).key@
}

/// The map that a sequence of entries stands for.
spec fn entries_map<T>(entries: Seq<Entry<T>>) -> Map<Seq<char>, T> {
    Map::new(
        |k: Seq<char>| exists|i: int| holds_key(entries, k, i),
        |k: Seq<char>| entries[choose|i: int| holds_key(entries, k, i)].value,
    )
}

/// With distinct keys, the entry at `i` is what the map holds under its key.
proof fn lemma_entry_is_mapped<T>(entries: Seq<Entry<T>>, i: int)
    requires
        keys_distinct(entries),
        0 <= i < entries.len(),
    ensures
        entries_map(entries).contains_key(entries[i].key@),
        entries_map(entries)[entries[i].key@] == entries[i].value,
{
    let k = entries[i].key@;
    assert(holds_key(entries, k, i));
    let j = choose|j: int| holds_key(entries, k, j);
    assert(holds_key(entries, k, j));
    if j < i {
        assert(entries[j].key@ != entries[i].key@);
    } else if i < j {
        assert(entries[i].key@ != entries[j].key@);
    }
}

/// A key that no entry carries is absent from the map.
proof fn lemma_absent_key<T>(entries: Seq<Entry<T>>, key: Seq<char>)
    requires
        forall|i: int| !holds_key(entries, key, i),
    ensures
        !entries_map(entries).contains_key(key),
{
}

impl<T> Table<T> {
    #[verifier::type_invariant]
    spec fn well_formed(&self) -> bool {
        keys_distinct(self.entries@)
    }

    /// The map from each key to its value.
    pub closed spec fn view(&self) -> Map<Seq<char>, T> {
        entries_map(self.entries@)
    }

    /// The empty table.
    pub fn new() -> (table: Self)
        ensures
            table@ == Map::<Seq<char>, T>::empty(),
    {
        let table = Table { entries: Vec::new() };
        proof {
            assert(table@ =~= Map::<Seq<char>, T>::empty());
        }
        table
    }

    /// Where `key` stands in the vector, if it stands there at all.
    fn position(&self, key: &String) -> (found: Option<usize>)
        ensures
            match found {
                Some(i) => holds_key(self.entries@, key@, i as int),
                None => forall|i: int| !holds_key(self.entries@, key@, i),
            },
    {
        let mut i: usize = 0;
        while i < self.entries.len()
            invariant
                i <= self.entries.len(),
                forall|j: int| 0 <= j < i ==> !holds_key(self.entries@, key@, j),
            decreases self.entries.len() - i,
        {
            if self.entries[i].key == *key {
                return Some(i);
            }
            i += 1;
        }
        None
    }

    /// The value stored under `key`.
    pub fn get(&self, key: &String) -> (found: Option<&T>)
        ensures
            match found {
                Some(value) => self@.contains_key(key@) && *value == self@[key@],
                None => !self@.contains_key(key@),
            },
    {
        proof {
            use_type_invariant(self);
        }
        match self.position(key) {
            Some(i) => {
                proof {
                    lemma_entry_is_mapped(self.entries@, i as int);
                }
                Some(&self.entries[i].value)
            },
            None => {
                proof {
                    lemma_absent_key(self.entries@, key@);
                }
                None
            },
        }
    }

    /// Stores `value` under `key`, in place of what stood there.
    pub fn insert(&mut self, key: String, value: T)
        ensures
            final(self)@ == old(self)@.insert(key@, value),
    {
        proof {
            use_type_invariant(&*self);
        }
        let ghost before = self.entries@;
        let ghost k = key@;
        let found = self.position(&key);
        let mut entries: Vec<Entry<T>> = Vec::new();
        core::mem::swap(&mut self.entries, &mut entries);
        match found {
            Some(i) => {
                entries.set(i, Entry { key, value });
                proof {
                    let after = entries@;
                    assert(forall|j: int| 0 <= j < after.len() ==> after[j].key@ == before[j].key@);
                    assert forall|q: Seq<char>|
                        entries_map(after).contains_key(q) <==> #[trigger] entries_map(
                            before,
                        ).insert(k, value).contains_key(q) by {
                        if entries_map(after).contains_key(q) {
                            let j = choose|j: int| holds_key(after, q, j);
                            assert(holds_key(before, q, j));
                        }
                        if entries_map(before).contains_key(q) {
                            let j = choose|j: int| holds_key(before, q, j);
                            assert(holds_key(after, q, j));
                        }
                        if q == k {
                            assert(holds_key(after, q, i as int));
                        }
                    }
                    assert forall|q: Seq<char>| #[trigger]
                        entries_map(after).contains_key(q) implies entries_map(after)[q]
                        == entries_map(before).insert(k, value)[q] by {
                        let j = choose|j: int| holds_key(after, q, j);
                        assert(holds_key(after, q, j));
                        lemma_entry_is_mapped(after, j);
                        if q != k {
                            lemma_entry_is_mapped(before, j);
                        } else {
                            lemma_entry_is_mapped(after, i as int);
                        }
                    }
                    assert(entries_map(after) =~= entries_map(before).insert(k, value));
                }
            },
            None => {
                entries.push(Entry { key, value });
                proof {
                    let after = entries@;
                    let last = before.len() as int;
                    assert(forall|j: int| 0 <= j < last ==> after[j] == before[j]);
                    assert forall|a: int, b: int| 0 <= a < b < after.len() implies (
                    #[trigger] after[a]).key@ != (#[trigger] after[b]).key@ by {
                        if b == last {
                            assert(!holds_key(before, k, a));
                        }
                    }
                    assert forall|q: Seq<char>|
                        entries_map(after).contains_key(q) <==> #[trigger] entries_map(
                            before,
                        ).insert(k, value).contains_key(q) by {
                        if entries_map(after).contains_key(q) {
                            let j = choose|j: int| holds_key(after, q, j);
                            if j != last {
                                assert(holds_key(before, q, j));
                            }
                        }
                        if entries_map(before).contains_key(q) {
                            let j = choose|j: int| holds_key(before, q, j);
                            assert(holds_key(after, q, j));
                        }
                        if q == k {
                            assert(holds_key(after, q, last));
                        }
                    }
                    assert forall|q: Seq<char>| #[trigger]
                        entries_map(after).contains_key(q) implies entries_map(after)[q]
                        == entries_map(before).insert(k, value)[q] by {
                        let j = choose|j: int| holds_key(after, q, j);
                        assert(holds_key(after, q, j));
                        lemma_entry_is_mapped(after, j);
                        if q != k {
                            assert(j != last);
                            lemma_entry_is_mapped(before, j);
                        } else {
                            lemma_entry_is_mapped(after, last);
                        }
                    }
                    assert(entries_map(after) =~= entries_map(before).insert(k, value));
                }
            },
        }
        self.entries = entries;
    }
}

} // verus!
