//! One namespace of facts: a map from keys to values, kept as a vector of
//! entries with distinct keys in order of first write.
use vstd::prelude::*;

use crate::string_set::StringSet;

verus! {

/// The keys of a sequence of entries.
pub open spec fn keys_of<V>(s: Seq<(String, V)>) -> Seq<Seq<char>> {
    s.map_values(|e: (String, V)| e.0@)
}

/// A map from string keys to values of one kind.
pub struct FactTable<V> {
    entries: Vec<(String, V)>,
}

impl<V> View for FactTable<V> {
    type V = Map<Seq<char>, V>;

    closed spec fn view(&self) -> Map<Seq<char>, V> {
        Map::new(
            |k: Seq<char>| keys_of(self.entries@).contains(k),
            |k: Seq<char>| self.entries@[self.slot(k)].1,
        )
    }
}

impl<V> FactTable<V> {
    /// A position of an entry under `k`.
    closed spec fn slot(&self, k: Seq<char>) -> int {
        choose|i: int| 0 <= i < self.entries@.len() && self.entries@[i].0@ == k
    }

    /// No key is held twice.
    pub closed spec fn wf(&self) -> bool {
        keys_of(self.entries@).no_duplicates()
    }

    proof fn lemma_entry(&self, i: int)
        requires
            self.wf(),
            0 <= i < self.entries@.len(),
        ensures
            self@.contains_key(self.entries@[i].0@),
            self@[self.entries@[i].0@] == self.entries@[i].1,
    {
        let k = self.entries@[i].0@;
        assert(keys_of(self.entries@)[i] == k);
        assert(0 <= i < self.entries@.len() && self.entries@[i].0@ == k);
        let j = self.slot(k);
        assert(keys_of(self.entries@)[j] == k);
        assert(j == i);
    }

    /// Replacing the value of one entry, under the same key, replaces that key's value.
    proof fn lemma_update(before: FactTable<V>, after: FactTable<V>, i: int)
        requires
            before.wf(),
            0 <= i < before.entries@.len(),
            after.entries@.len() == before.entries@.len(),
            after.entries@[i].0@ == before.entries@[i].0@,
            forall|j: int| 0 <= j < before.entries@.len() && j != i ==> after.entries@[j] == before.entries@[j],
        ensures
            after.wf(),
            after@ == before@.insert(before.entries@[i].0@, after.entries@[i].1),
    {
        let key = before.entries@[i].0@;
        let value = after.entries@[i].1;
        assert(keys_of(after.entries@) =~= keys_of(before.entries@));
        assert forall|x: Seq<char>| #[trigger] before@.contains_key(x) && x != key
            implies after@[x] == before@[x] by {
            let j = choose|j: int|
                0 <= j < keys_of(before.entries@).len() && keys_of(before.entries@)[j] == x;
            before.lemma_entry(j);
            after.lemma_entry(j);
        }
        after.lemma_entry(i);
        assert forall|x: Seq<char>| #[trigger] after@.contains_key(x)
            <==> before@.insert(key, value).contains_key(x) by {
            assert(keys_of(after.entries@).contains(x) == keys_of(before.entries@).contains(x));
        }
        assert(after@.dom() =~= before@.insert(key, value).dom());
        assert(after@ =~= before@.insert(key, value));
    }

    /// An empty table.
    pub fn new() -> (r: FactTable<V>)
        ensures
            r.wf(),
            r@ == Map::<Seq<char>, V>::empty(),
    {
        let r = FactTable { entries: Vec::new() };
        assert(r@ =~= Map::<Seq<char>, V>::empty());
        r
    }

    /// The position of the entry under `key`, if there is one.
    fn position(&self, key: &String) -> (r: Option<usize>)
        requires
            self.wf(),
        ensures
            match r {
                Some(i) => i < self.entries@.len() && self.entries@[i as int].0@ == key@,
                None => !self@.contains_key(key@),
            },
    {
        let mut i: usize = 0;
        while i < self.entries.len()
            invariant
                i <= self.entries@.len(),
                forall|j: int| 0 <= j < i ==> self.entries@[j].0@ != key@,
            decreases self.entries@.len() - i,
        {
            if self.entries[i].0 == *key {
                return Some(i);
            }
            i = i + 1;
        }
        proof {
            if keys_of(self.entries@).contains(key@) {
                let j = choose|j: int|
                    0 <= j < keys_of(self.entries@).len() && keys_of(self.entries@)[j] == key@;
                assert(self.entries@[j].0@ == key@);
            }
        }
        None
    }

    /// The value under `key`, if one was written.
    pub fn get(&self, key: &str) -> (r: Option<&V>)
        requires
            self.wf(),
        ensures
            match r {
                Some(v) => self@.contains_key(key@) && *v == self@[key@],
                None => !self@.contains_key(key@),
            },
    {
        let k = key.to_owned();
        match self.position(&k) {
            Some(i) => {
                proof {
                    self.lemma_entry(i as int);
                }
                Some(&self.entries[i].1)
            },
            None => None,
        }
    }

    /// Writes `value` under `key`, replacing what was there.
    pub fn insert(&mut self, key: &str, value: V)
        requires
            old(self).wf(),
        ensures
            final(self).wf(),
            final(self)@ == old(self)@.insert(key@, value),
    {
        let k = key.to_owned();
        match self.position(&k) {
            Some(i) => {
                self.entries.set(i, (k, value));
                proof {
                    FactTable::lemma_update(*old(self), *self, i as int);
                }
            },
            None => {
                self.entries.push((k, value));
                assert(keys_of(self.entries@) =~= keys_of(old(self).entries@).push(key@));
                assert forall|x: Seq<char>| #[trigger] old(self)@.contains_key(x)
                    implies self@.contains_key(x) && self@[x] == old(self)@[x] by {
                    let j = choose|j: int|
                        0 <= j < keys_of(old(self).entries@).len() && keys_of(old(self).entries@)[j] == x;
                    old(self).lemma_entry(j);
                    self.lemma_entry(j);
                }
                proof {
                    self.lemma_entry(old(self).entries@.len() as int);
                }
                assert(self@ =~= old(self)@.insert(key@, value));
            },
        }
    }
}

impl FactTable<StringSet> {
    /// Every set held is well formed.
    pub open spec fn members_wf(&self) -> bool {
        forall|k: Seq<char>| #[trigger] self@.contains_key(k) ==> self@[k].wf()
    }

    /// The members of the set under `k`; none where no set was written.
    pub open spec fn members_at(&self, k: Seq<char>) -> Set<Seq<char>> {
        if self@.contains_key(k) {
            self@[k]@
        } else {
            Set::empty()
        }
    }

    /// Adds `value` to the set under `key`, creating the set if there is none;
    /// returns whether it was not a member before.
    pub fn add_member(&mut self, key: &str, value: &str) -> (r: bool)
        requires
            old(self).wf(),
            old(self).members_wf(),
        ensures
            final(self).wf(),
            final(self).members_wf(),
            r == !old(self).members_at(key@).contains(value@),
            final(self)@.dom() == old(self)@.dom().insert(key@),
            final(self)@[key@]@ == old(self).members_at(key@).insert(value@),
            forall|k: Seq<char>| k != key@ && #[trigger] old(self)@.contains_key(k)
                ==> final(self)@[k] == old(self)@[k],
    {
        let k = key.to_owned();
        match self.position(&k) {
            Some(i) => {
                proof {
                    self.lemma_entry(i as int);
                }
                let r = self.entries[i].1.insert(value);
                proof {
                    FactTable::lemma_update(*old(self), *self, i as int);
                }
                r
            },
            None => {
                let mut set = StringSet::new();
                set.insert(value);
                self.insert(key, set);
                true
            },
        }
    }

    /// Removes `value` from the set under `key`, if there is one; returns whether
    /// it was a member.
    pub fn remove_member(&mut self, key: &str, value: &str) -> (r: bool)
        requires
            old(self).wf(),
            old(self).members_wf(),
        ensures
            final(self).wf(),
            final(self).members_wf(),
            r == old(self).members_at(key@).contains(value@),
            old(self)@.contains_key(key@) ==> final(self)@ == old(self)@.insert(key@, final(self)@[key@]),
            old(self)@.contains_key(key@) ==> final(self)@[key@]@ == old(self)@[key@]@.remove(value@),
            !old(self)@.contains_key(key@) ==> final(self)@ == old(self)@,
    {
        let k = key.to_owned();
        match self.position(&k) {
            Some(i) => {
                proof {
                    self.lemma_entry(i as int);
                }
                let r = self.entries[i].1.remove(value);
                proof {
                    FactTable::lemma_update(*old(self), *self, i as int);
                }
                r
            },
            None => false,
        }
    }
}

} // verus!
