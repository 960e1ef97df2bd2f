//! A map keyed by text, kept as a list in which no key occurs twice.

use vstd::prelude::*;

verus! {

#[derive(Debug)]
pub struct Entry<V> {
    pub key: String,
    pub value: V,
}

#[derive(Debug)]
pub struct StringMap<V> {
    entries: Vec<Entry<V>>,
}

/// The map that a list of entries stands for.
pub open spec fn entries_map<V>(entries: Seq<Entry<V>>) -> Map<Seq<char>, V>
    decreases entries.len(),
{
    if entries.len() == 0 {
        Map::empty()
    } else {
        entries_map(entries.drop_last()).insert(entries.last().key@, entries.last().value)
    }
}

impl<V> View for StringMap<V> {
    type V = Map<Seq<char>, V>;

    closed spec fn view(&self) -> Map<Seq<char>, V> {
        entries_map(self.entries@)
    }
}

proof fn lemma_entry_found<V>(entries: Seq<Entry<V>>, i: int)
    requires
        0 <= i < entries.len(),
        forall|k: int| i < k < entries.len() ==> (#[trigger] entries[k]).key@ != entries[i].key@,
    ensures
        entries_map(entries).contains_key(entries[i].key@),
        entries_map(entries)[entries[i].key@] == entries[i].value,
    decreases entries.len(),
{
    if i < entries.len() - 1 {
        lemma_entry_found(entries.drop_last(), i);
        assert(entries[entries.len() - 1].key@ != entries[i].key@);
    }
}

proof fn lemma_entry_missing<V>(entries: Seq<Entry<V>>, key: Seq<char>)
    requires
        forall|k: int| 0 <= k < entries.len() ==> (#[trigger] entries[k]).key@ != key,
    ensures
        !entries_map(entries).contains_key(key),
    decreases entries.len(),
{
    if entries.len() > 0 {
        lemma_entry_missing(entries.drop_last(), key);
    }
}

/// Another value under a key that occurs once changes the map at that key alone.
proof fn lemma_entry_replaced<V>(entries: Seq<Entry<V>>, i: int, entry: Entry<V>)
    requires
        0 <= i < entries.len(),
        entry.key@ == entries[i].key@,
        forall|k: int| i < k < entries.len() ==> (#[trigger] entries[k]).key@ != entries[i].key@,
    ensures
        entries_map(entries.update(i, entry)) == entries_map(entries).insert(
            entry.key@,
            entry.value,
        ),
    decreases entries.len(),
{
    let new = entries.update(i, entry);
    if i == entries.len() - 1 {
        assert(new.drop_last() == entries.drop_last());
        assert(entries_map(new) =~= entries_map(entries).insert(entry.key@, entry.value));
    } else {
        assert(new.drop_last() == entries.drop_last().update(i, entry));
        lemma_entry_replaced(entries.drop_last(), i, entry);
        assert(entries[entries.len() - 1].key@ != entry.key@);
        assert(entries_map(new) =~= entries_map(entries).insert(entry.key@, entry.value));
    }
}

impl<V> StringMap<V> {
    /// No key occurs twice.
    #[verifier::type_invariant]
    closed spec fn distinct(self) -> bool {
        distinct_keys(self.entries@)
    }

    /// A map without entries.
    pub fn new() -> (map: Self)
        ensures
            map@ == Map::<Seq<char>, V>::empty(),
    {
        StringMap { entries: Vec::new() }
    }

    /// The map with `value` under `key`, in place of what was there.
    pub fn with(self, key: String, value: V) -> (map: Self)
        ensures
            map@ == self@.insert(key@, value),
    {
        proof {
            use_type_invariant(&self);
        }
        let mut entries: Vec<Entry<V>> = self.entries;
        let mut i: usize = 0;
        while i < entries.len() && entries[i].key != key
            invariant
                i <= entries@.len(),
                forall|k: int| 0 <= k < i ==> (#[trigger] entries@[k]).key@ != key@,
            decreases entries@.len() - i,
        {
            i = i + 1;
        }
        let entry: Entry<V> = Entry { key, value };
        let ghost held = entries@;
        if i < entries.len() {
            proof {
                assert forall|k: int| i < k < held.len() implies (#[trigger] held[k]).key@
                    != held[i as int].key@ by {
                    assert(distinct_keys(held));
                }
                lemma_entry_replaced(held, i as int, entry);
            }
            entries.set(i, entry);
        } else {
            entries.push(entry);
            assert(entries@.drop_last() == held);
        }
        assert(distinct_keys(entries@));
        StringMap { entries }
    }

    /// The value under `key`.
    pub fn get(&self, key: &str) -> (found: Option<&V>)
        ensures
            (match found {
                Some(v) => self@.contains_key(key@) && self@[key@] == *v,
                None => !self@.contains_key(key@),
            }),
    {
        proof {
            use_type_invariant(self);
        }
        let wanted: String = key.to_owned();
        let mut i: usize = 0;
        while i < self.entries.len()
            invariant
                i <= self.entries@.len(),
                wanted@ == key@,
                distinct_keys(self.entries@),
                forall|k: int| 0 <= k < i ==> (#[trigger] self.entries@[k]).key@ != key@,
            decreases self.entries@.len() - i,
        {
            if self.entries[i].key == wanted {
                proof {
                    lemma_entry_found(self.entries@, i as int);
                }
                return Some(&self.entries[i].value);
            }
            i = i + 1;
        }
        proof {
            lemma_entry_missing(self.entries@, key@);
        }
        None
    }
}

/// Entries with the same keys and values make the same map.
proof fn lemma_same_entries<V>(a: Seq<Entry<V>>, b: Seq<Entry<V>>)
    requires
        a.len() == b.len(),
        forall|k: int|
            #![trigger a[k]]
            0 <= k < a.len() ==> a[k].key@ == b[k].key@ && a[k].value == b[k].value,
    ensures
        entries_map(a) == entries_map(b),
    decreases a.len(),
{
    if a.len() > 0 {
        assert(a[a.len() - 1].key@ == b[b.len() - 1].key@);
        lemma_same_entries(a.drop_last(), b.drop_last());
    }
}

impl<V: Copy> StringMap<V> {
    /// A copy of the map.
    pub fn copied(&self) -> (copy: Self)
        ensures
            copy@ == self@,
    {
        proof {
            use_type_invariant(self);
        }
        let mut entries: Vec<Entry<V>> = Vec::new();
        let mut i: usize = 0;
        while i < self.entries.len()
            invariant
                i <= self.entries@.len(),
                entries@.len() == i,
                forall|k: int|
                    #![trigger entries@[k]]
                    0 <= k < i ==> entries@[k].key@ == self.entries@[k].key@ && entries@[k].value
                        == self.entries@[k].value,
            decreases self.entries@.len() - i,
        {
            entries.push(Entry { key: self.entries[i].key.clone(), value: self.entries[i].value });
            i = i + 1;
        }
        proof {
            lemma_same_entries(entries@, self.entries@);
            assert forall|p: int, q: int| 0 <= p < q < entries@.len() implies (
            #[trigger] entries@[p]).key@ != (#[trigger] entries@[q]).key@ by {
                assert(self.entries@[p].key@ != self.entries@[q].key@);
            }
        }
        StringMap { entries }
    }
}

/// No key occurs twice.
pub open spec fn distinct_keys<V>(entries: Seq<Entry<V>>) -> bool {
    forall|i: int, j: int|
        0 <= i < j < entries.len() ==> (#[trigger] entries[i]).key@ != (#[trigger] entries[j]).key@
}

}
