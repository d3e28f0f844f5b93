//! A map from strings to values that remembers its entries in the order in
//! which their keys first came, so that it can be walked.

use vstd::hash_map::StringHashMap;
use vstd::prelude::*;

verus! {

/// A finite map keyed by strings. A key occurs once; inserting under a key
/// that is present replaces its value and keeps its place.
pub struct Dictionary<V> {
    entries: Vec<(String, V)>,
    places: StringHashMap<usize>,
}

impl<V> Dictionary<V> {
    /// Every entry is found at its place under its key, and every key that
    /// has a place is the key of the entry there.
    pub closed spec fn wf(&self) -> bool {
        &&& forall|i: int|
            0 <= i < self.entries@.len() ==> self.places@.contains_key(
                #[trigger] self.entries@[i].0@,
            ) && self.places@[self.entries@[i].0@] == i
        &&& forall|k: Seq<char>| #[trigger]
            self.places@.contains_key(k) ==> self.places@[k] < self.entries@.len()
                && self.entries@[self.places@[k] as int].0@ == k
    }

    /// The map that the dictionary holds.
    pub closed spec fn view(&self) -> Map<Seq<char>, V> {
        Map::new(
            |k: Seq<char>| self.places@.contains_key(k),
            |k: Seq<char>| self.entries@[self.places@[k] as int].1,
        )
    }

    /// The entries in the order in which their keys first came.
    pub closed spec fn entries(&self) -> Seq<(String, V)> {
        self.entries@
    }

    /// The entries are the map: each entry is a key of the map with its
    /// value, each key of the map has an entry, and no two entries share a
    /// key.
    pub proof fn lemma_entries(&self)
        requires
            self.wf(),
        ensures
            self@.dom().finite(),
            self.entries().len() == self@.len(),
            forall|i: int|
                0 <= i < self.entries().len() ==> self@.contains_key(
                    #[trigger] self.entries()[i].0@,
                ) && self@[self.entries()[i].0@] == self.entries()[i].1,
            forall|k: Seq<char>|
                self@.contains_key(k) ==> exists|i: int|
                    0 <= i < self.entries().len() && #[trigger] self.entries()[i].0@ == k,
            forall|i: int, j: int|
                0 <= i < j < self.entries().len() ==> #[trigger] self.entries()[i].0@
                    != #[trigger] self.entries()[j].0@,
    {
        assert(self@.dom() =~= self.places@.dom());
        assert forall|k: Seq<char>| self@.contains_key(k) implies exists|i: int|
            0 <= i < self.entries().len() && #[trigger] self.entries()[i].0@ == k by {
            let i = self.places@[k] as int;
            assert(self.entries()[i].0@ == k);
        }
        self.lemma_places_count(self.entries@.len() as int);
        assert(self.places@.dom().filter(|k: Seq<char>| self.places@[k] < self.entries@.len())
            =~= self.places@.dom());
    }

    /// As many keys have a place below `n` as there are places below `n`.
    proof fn lemma_places_count(&self, n: int)
        requires
            self.wf(),
            0 <= n <= self.entries@.len(),
        ensures
            self.places@.dom().filter(|k: Seq<char>| self.places@[k] < n).finite(),
            self.places@.dom().filter(|k: Seq<char>| self.places@[k] < n).len() == n,
        decreases n,
    {
        let below = self.places@.dom().filter(|k: Seq<char>| self.places@[k] < n);
        if n == 0 {
            assert(below =~= Set::empty());
        } else {
            self.lemma_places_count(n - 1);
            let before = self.places@.dom().filter(|k: Seq<char>| self.places@[k] < n - 1);
            let key = self.entries@[n - 1].0@;
            assert(below =~= before.insert(key));
        }
    }

    /// A dictionary without entries.
    pub fn new() -> (d: Self)
        ensures
            d.wf(),
            d@ == Map::<Seq<char>, V>::empty(),
            d.entries() == Seq::<(String, V)>::empty(),
    {
        let d = Dictionary { entries: Vec::new(), places: StringHashMap::new() };
        assert(d@ =~= Map::<Seq<char>, V>::empty());
        assert(d.entries() =~= Seq::<(String, V)>::empty());
        d
    }

    /// Puts `value` under `key`, in place of what was under it.
    pub fn insert(&mut self, key: String, value: V)
        requires
            old(self).wf(),
        ensures
            final(self).wf(),
            final(self)@ == old(self)@.insert(key@, value),
            old(self)@.contains_key(key@) ==> exists|i: int|
                0 <= i < old(self).entries().len() && #[trigger] old(self).entries()[i].0@ == key@
                    && final(self).entries() == old(self).entries().update(i, (key, value)),
            !old(self)@.contains_key(key@) ==> final(self).entries() == old(self).entries().push(
                (key, value),
            ),
    {
        let place = match self.places.get(key.as_str()) {
            Some(i) => Some(*i),
            None => None,
        };
        match place {
            Some(i) => {
                self.entries.set(i, (key, value));
                assert(old(self).entries()[i as int].0@ == key@);
            },
            None => {
                let n: usize = self.entries.len();
                self.places.insert(key.clone(), n);
                self.entries.push((key, value));
            },
        }
        assert(self@ =~= old(self)@.insert(key@, value));
    }

    /// The value under `key`, if the key is present.
    pub fn get(&self, key: &str) -> (r: Option<&V>)
        requires
            self.wf(),
        ensures
            match r {
                Some(v) => self@.contains_key(key@) && *v == self@[key@],
                None => !self@.contains_key(key@),
            },
    {
        match self.places.get(key) {
            Some(i) => Some(&self.entries[*i].1),
            None => None,
        }
    }

    /// Whether `key` is present.
    pub fn contains_key(&self, key: &str) -> (r: bool)
        ensures
            r == self@.contains_key(key@),
    {
        self.places.contains_key(key)
    }

    /// The number of entries.
    pub fn len(&self) -> (n: usize)
        requires
            self.wf(),
        ensures
            n == self@.len(),
            n == self.entries().len(),
    {
        proof {
            self.lemma_entries();
        }
        self.entries.len()
    }

    /// The entry at place `i`, counting from the entry whose key came first.
    pub fn entry(&self, i: usize) -> (r: (&String, &V))
        requires
            self.wf(),
            i < self.entries().len(),
        ensures
            *r.0 == self.entries()[i as int].0,
            *r.1 == self.entries()[i as int].1,
    {
        (&self.entries[i].0, &self.entries[i].1)
    }
}

} // verus!
