//! A flat mapping from text keys to text values, kept in insertion order.

use vstd::prelude::*;

verus! {

/// One entry of a mapping: a key and its value, as sequences of characters.
pub type Entry = (Seq<char>, Seq<char>);

/// Whether some entry of `pairs` has the key `key`.
pub open spec fn has_key(pairs: Seq<Entry>, key: Seq<char>) -> bool {
    exists|i: int| 0 <= i < pairs.len() && (#[trigger] pairs[i]).0 == key
}

/// The position of an entry of `pairs` with the key `key`.
pub open spec fn index_of(pairs: Seq<Entry>, key: Seq<char>) -> int {
    choose|i: int| 0 <= i < pairs.len() && (#[trigger] pairs[i]).0 == key
}

/// No two entries of `pairs` share a key.
pub open spec fn distinct_keys(pairs: Seq<Entry>) -> bool {
    forall|i: int, j: int|
        0 <= i < j < pairs.len() ==> (#[trigger] pairs[i]).0 != (#[trigger] pairs[j]).0
}

/// `pairs` after `key` is bound to `value`: an entry that has the key keeps
/// its place and takes the new value, a new key goes to the end.
pub open spec fn put(pairs: Seq<Entry>, key: Seq<char>, value: Seq<char>) -> Seq<Entry> {
    if has_key(pairs, key) {
        pairs.update(index_of(pairs, key), (key, value))
    } else {
        pairs.push((key, value))
    }
}

/// `acc` after every entry of `pairs` has been put into it, first to last.
pub open spec fn put_all(acc: Seq<Entry>, pairs: Seq<Entry>) -> Seq<Entry>
    decreases pairs.len(),
{
    if pairs.len() == 0 {
        acc
    } else {
        put_all(put(acc, pairs[0].0, pairs[0].1), pairs.drop_first())
    }
}

/// The mapping that `pairs` stands for.
pub open spec fn as_map(pairs: Seq<Entry>) -> Map<Seq<char>, Seq<char>> {
    Map::new(|k: Seq<char>| has_key(pairs, k), |k: Seq<char>| pairs[index_of(pairs, k)].1)
}

/// Putting a binding keeps the keys distinct.
pub proof fn lemma_put_keeps_distinct(pairs: Seq<Entry>, key: Seq<char>, value: Seq<char>)
    requires
        distinct_keys(pairs),
    ensures
        distinct_keys(put(pairs, key, value)),
        has_key(put(pairs, key, value), key),
{
    let after = put(pairs, key, value);
    if has_key(pairs, key) {
        let at = index_of(pairs, key);
        assert(after[at].0 == key);
        assert forall|i: int, j: int| 0 <= i < j < after.len() implies (#[trigger] after[i]).0 != (
        #[trigger] after[j]).0 by {
            assert(after[i].0 == pairs[i].0);
            assert(after[j].0 == pairs[j].0);
        }
    } else {
        assert(after[pairs.len() as int].0 == key);
        assert forall|i: int, j: int| 0 <= i < j < after.len() implies (#[trigger] after[i]).0 != (
        #[trigger] after[j]).0 by {
            assert(after[i] == pairs[i]);
            if j < pairs.len() {
                assert(after[j] == pairs[j]);
            }
        }
    }
}

/// Putting a binding is inserting it into the mapping.
pub proof fn lemma_put_is_insert(pairs: Seq<Entry>, key: Seq<char>, value: Seq<char>)
    requires
        distinct_keys(pairs),
    ensures
        as_map(put(pairs, key, value)) == as_map(pairs).insert(key, value),
{
    let after = put(pairs, key, value);
    lemma_put_keeps_distinct(pairs, key, value);
    assert forall|k: Seq<char>| has_key(after, k) <==> (k == key || has_key(pairs, k)) by {
        if has_key(after, k) && k != key {
            let i = index_of(after, k);
            assert(after[i].0 == pairs[i].0);
            assert(pairs[i].0 == k);
        }
        if has_key(pairs, k) && k != key {
            let i = index_of(pairs, k);
            assert(after[i].0 == k);
        }
    }
    assert forall|k: Seq<char>| has_key(after, k) implies #[trigger] as_map(after)[k] == as_map(
        pairs,
    ).insert(key, value)[k] by {
        let i = index_of(after, k);
        if k == key {
            if has_key(pairs, key) {
                let at = index_of(pairs, key);
                assert(after[at].0 == key);
                assert(i == at);
            } else {
                assert(after[pairs.len() as int].0 == key);
                assert(i == pairs.len());
            }
        } else {
            let j = index_of(pairs, k);
            assert(after[j].0 == k);
            assert(i == j);
        }
    }
    assert(as_map(after) =~= as_map(pairs).insert(key, value));
}

/// The entries of `entries`, each key and value as a sequence of characters.
pub open spec fn pairs_of(entries: Seq<(String, String)>) -> Seq<Entry> {
    Seq::new(entries.len(), |i: int| (entries[i].0@, entries[i].1@))
}

/// A flat mapping from keys to values. Each key occurs once; the entries keep
/// the order in which their keys first came.
#[derive(Debug)]
pub struct MetadataMap {
    entries: Vec<(String, String)>,
}

impl View for MetadataMap {
    type V = Map<Seq<char>, Seq<char>>;

    /// The mapping, without the order of its entries.
    open spec fn view(&self) -> Map<Seq<char>, Seq<char>> {
        as_map(self.pairs())
    }
}

impl MetadataMap {
    /// The entries, first to last, each as key and value.
    pub closed spec fn pairs(&self) -> Seq<Entry> {
        pairs_of(self.entries@)
    }

    /// The invariant of the type: no key occurs twice.
    pub open spec fn wf(&self) -> bool {
        distinct_keys(self.pairs())
    }

    /// The empty mapping.
    pub fn new() -> (map: MetadataMap)
        ensures
            map.wf(),
            map.pairs() == Seq::<Entry>::empty(),
    {
        let map = MetadataMap { entries: Vec::new() };
        assert(map.pairs() =~= Seq::<Entry>::empty());
        map
    }

    /// The number of entries.
    pub fn len(&self) -> (n: usize)
        ensures
            n == self.pairs().len(),
    {
        self.entries.len()
    }

    /// The entry at position `i`: its key and its value.
    pub fn entry(&self, i: usize) -> (pair: (&str, &str))
        requires
            i < self.pairs().len(),
        ensures
            (pair.0@, pair.1@) == self.pairs()[i as int],
    {
        (self.entries[i].0.as_str(), self.entries[i].1.as_str())
    }

    /// The position of the entry with the key `key`, if there is one.
    fn find(&self, key: &String) -> (at: Option<usize>)
        ensures
            match at {
                Some(i) => i < self.pairs().len() && self.pairs()[i as int].0 == key@,
                None => !has_key(self.pairs(), key@),
            },
    {
        let mut i: usize = 0;
        while i < self.entries.len()
            invariant
                i <= self.entries.len(),
                forall|j: int| 0 <= j < i ==> (#[trigger] self.pairs()[j]).0 != key@,
            decreases self.entries.len() - i,
        {
            if self.entries[i].0 == *key {
                return Some(i);
            }
            i += 1;
        }
        None
    }

    /// Binds `key` to `value`, in place of the value that the key had.
    pub fn insert(&mut self, key: String, value: String)
        requires
            old(self).wf(),
        ensures
            final(self).wf(),
            final(self).pairs() == put(old(self).pairs(), key@, value@),
            final(self)@ == old(self)@.insert(key@, value@),
    {
        let ghost before = self.pairs();
        match self.find(&key) {
            Some(i) => {
                proof {
                    assert(before[i as int].0 == key@);
                    assert(index_of(before, key@) == i);
                }
                self.entries.set(i, (key, value));
            },
            None => {
                self.entries.push((key, value));
            },
        }
        proof {
            lemma_put_keeps_distinct(before, key@, value@);
            lemma_put_is_insert(before, key@, value@);
            assert(self.pairs() =~= put(before, key@, value@));
        }
    }

    /// The mapping that binds each key of `entries` to its value, the later
    /// of two entries with one key giving the value.
    pub fn from_entries(entries: Vec<(String, String)>) -> (map: MetadataMap)
        ensures
            map.wf(),
            map.pairs() == put_all(Seq::empty(), pairs_of(entries@)),
    {
        let mut map = MetadataMap::new();
        let ghost all = pairs_of(entries@);
        let mut i: usize = 0;
        proof {
            assert(all.skip(0) =~= all);
        }
        while i < entries.len()
            invariant
                i <= entries.len(),
                all == pairs_of(entries@),
                map.wf(),
                put_all(map.pairs(), all.skip(i as int)) == put_all(Seq::empty(), all),
            decreases entries.len() - i,
        {
            let key = entries[i].0.clone();
            let value = entries[i].1.clone();
            proof {
                let rest = all.skip(i as int);
                assert(rest[0] == (key@, value@));
                assert(rest.drop_first() =~= all.skip(i + 1));
            }
            map.insert(key, value);
            i += 1;
        }
        map
    }

    /// The entries, first to last, as strings of their own.
    pub fn to_entries(&self) -> (entries: Vec<(String, String)>)
        ensures
            pairs_of(entries@) == self.pairs(),
    {
        let mut entries: Vec<(String, String)> = Vec::new();
        let mut i: usize = 0;
        while i < self.entries.len()
            invariant
                i <= self.entries.len(),
                entries@.len() == i,
                forall|j: int|
                    0 <= j < i ==> (#[trigger] entries@[j]).0@ == self.entries@[j].0@
                        && entries@[j].1@ == self.entries@[j].1@,
            decreases self.entries.len() - i,
        {
            entries.push((self.entries[i].0.clone(), self.entries[i].1.clone()));
            i += 1;
        }
        proof {
            assert(pairs_of(entries@) =~= self.pairs());
        }
        entries
    }

    /// The value that `key` is bound to.
    pub fn get(&self, key: &str) -> (value: Option<&str>)
        requires
            self.wf(),
        ensures
            value is Some <==> self@.contains_key(key@),
            value is Some ==> value->0@ == self@[key@],
    {
        let owned = String::from_str(key);
        match self.find(&owned) {
            Some(i) => {
                proof {
                    assert(self.pairs()[i as int].0 == key@);
                    assert(index_of(self.pairs(), key@) == i);
                }
                Some(self.entries[i].1.as_str())
            },
            None => None,
        }
    }

    /// The keys, in the order of the entries.
    pub fn keys(&self) -> (keys: Vec<&str>)
        ensures
            keys@.len() == self.pairs().len(),
            forall|i: int| 0 <= i < keys@.len() ==> (#[trigger] keys@[i])@ == self.pairs()[i].0,
    {
        let mut keys: Vec<&str> = Vec::new();
        let mut i: usize = 0;
        while i < self.entries.len()
            invariant
                i <= self.entries.len(),
                keys@.len() == i,
                forall|j: int| 0 <= j < i ==> (#[trigger] keys@[j])@ == self.pairs()[j].0,
            decreases self.entries.len() - i,
        {
            keys.push(self.entries[i].0.as_str());
            i += 1;
        }
        keys
    }
}

} // verus!
