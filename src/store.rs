//! The fact store: four namespaces of facts, one per kind, each with the
//! sequence of keys whose value changed since it was last drained.
use vstd::prelude::*;

use crate::string_set::{views, StringSet};
use crate::table::FactTable;

verus! {

/// The kinds of fact; each has a namespace of its own.
#[derive(Clone, Copy, Debug, PartialEq, Eq, Structural)]
pub enum FactKind {
    Int,
    Str,
    Bool,
    StringSet,
}

/// `s` with `k` recorded in it: unchanged where `k` is already there, else with
/// `k` added at the end.
pub open spec fn mark(s: Seq<Seq<char>>, k: Seq<char>) -> Seq<Seq<char>> {
    if s.contains(k) {
        s
    } else {
        s.push(k)
    }
}

/// What a fact store holds: a map per kind, and per kind the keys changed since
/// the last drain, in the order in which each first changed.
pub struct StoreModel {
    pub ints: Map<Seq<char>, i64>,
    pub strings: Map<Seq<char>, Seq<char>>,
    pub bools: Map<Seq<char>, bool>,
    pub sets: Map<Seq<char>, Set<Seq<char>>>,
    pub changed_ints: Seq<Seq<char>>,
    pub changed_strings: Seq<Seq<char>>,
    pub changed_bools: Seq<Seq<char>>,
    pub changed_sets: Seq<Seq<char>>,
}

impl StoreModel {
    /// A store with nothing written.
    pub open spec fn empty() -> StoreModel {
        StoreModel {
            ints: Map::empty(),
            strings: Map::empty(),
            bools: Map::empty(),
            sets: Map::empty(),
            changed_ints: Seq::empty(),
            changed_strings: Seq::empty(),
            changed_bools: Seq::empty(),
            changed_sets: Seq::empty(),
        }
    }

    /// The int under `k`, or 0 where none was written.
    pub open spec fn int_or_default(self, k: Seq<char>) -> i64 {
        if self.ints.contains_key(k) {
            self.ints[k]
        } else {
            0
        }
    }

    /// The string under `k`, or the empty string where none was written.
    pub open spec fn string_or_default(self, k: Seq<char>) -> Seq<char> {
        if self.strings.contains_key(k) {
            self.strings[k]
        } else {
            Seq::empty()
        }
    }

    /// The bool under `k`, or false where none was written.
    pub open spec fn bool_or_default(self, k: Seq<char>) -> bool {
        if self.bools.contains_key(k) {
            self.bools[k]
        } else {
            false
        }
    }

    /// The set under `k`, or the empty set where none was written.
    pub open spec fn set_or_empty(self, k: Seq<char>) -> Set<Seq<char>> {
        if self.sets.contains_key(k) {
            self.sets[k]
        } else {
            Set::empty()
        }
    }

    /// The keys of one kind changed since its last drain.
    pub open spec fn changed(self, kind: FactKind) -> Seq<Seq<char>> {
        match kind {
            FactKind::Int => self.changed_ints,
            FactKind::Str => self.changed_strings,
            FactKind::Bool => self.changed_bools,
            FactKind::StringSet => self.changed_sets,
        }
    }

    /// Whether `kind` holds a value under `k`.
    pub open spec fn has(self, kind: FactKind, k: Seq<char>) -> bool {
        match kind {
            FactKind::Int => self.ints.contains_key(k),
            FactKind::Str => self.strings.contains_key(k),
            FactKind::Bool => self.bools.contains_key(k),
            FactKind::StringSet => self.sets.contains_key(k),
        }
    }

    /// Each changed-set holds a key at most once, and only keys that hold a value.
    pub open spec fn wf(self) -> bool {
        forall|kind: FactKind|
            #![trigger self.changed(kind)]
            self.changed(kind).no_duplicates() && forall|i: int|
                0 <= i < self.changed(kind).len() ==> self.has(kind, #[trigger] self.changed(kind)[i])
    }

    /// After writing the int `v` under `k`.
    pub open spec fn with_int(self, k: Seq<char>, v: i64) -> StoreModel {
        StoreModel {
            ints: self.ints.insert(k, v),
            changed_ints: if self.int_or_default(k) != v {
                mark(self.changed_ints, k)
            } else {
                self.changed_ints
            },
            ..self
        }
    }

    /// After writing the string `v` under `k`.
    pub open spec fn with_string(self, k: Seq<char>, v: Seq<char>) -> StoreModel {
        StoreModel {
            strings: self.strings.insert(k, v),
            changed_strings: if self.string_or_default(k) != v {
                mark(self.changed_strings, k)
            } else {
                self.changed_strings
            },
            ..self
        }
    }

    /// After writing the bool `v` under `k`.
    pub open spec fn with_bool(self, k: Seq<char>, v: bool) -> StoreModel {
        StoreModel {
            bools: self.bools.insert(k, v),
            changed_bools: if self.bool_or_default(k) != v {
                mark(self.changed_bools, k)
            } else {
                self.changed_bools
            },
            ..self
        }
    }

    /// After adding `v` to the set under `k`, which is created where absent.
    pub open spec fn with_member(self, k: Seq<char>, v: Seq<char>) -> StoreModel {
        StoreModel {
            sets: self.sets.insert(k, self.set_or_empty(k).insert(v)),
            changed_sets: if !self.set_or_empty(k).contains(v) {
                mark(self.changed_sets, k)
            } else {
                self.changed_sets
            },
            ..self
        }
    }

    /// After removing `v` from the set under `k`; nothing changes where `v` is
    /// not in it.
    pub open spec fn without_member(self, k: Seq<char>, v: Seq<char>) -> StoreModel {
        if self.set_or_empty(k).contains(v) {
            StoreModel {
                sets: self.sets.insert(k, self.sets[k].remove(v)),
                changed_sets: mark(self.changed_sets, k),
                ..self
            }
        } else {
            self
        }
    }

    /// After clearing the changed-set of `kind`.
    pub open spec fn drained(self, kind: FactKind) -> StoreModel {
        match kind {
            FactKind::Int => StoreModel { changed_ints: Seq::empty(), ..self },
            FactKind::Str => StoreModel { changed_strings: Seq::empty(), ..self },
            FactKind::Bool => StoreModel { changed_bools: Seq::empty(), ..self },
            FactKind::StringSet => StoreModel { changed_sets: Seq::empty(), ..self },
        }
    }
}

/// Records `key` in a changed-set, once.
fn mark_changed(changed: &mut Vec<String>, key: &str)
    ensures
        views(final(changed)@) == mark(views(old(changed)@), key@),
{
    let k = key.to_owned();
    assert(k@ == key@);
    let seen: &Vec<String> = &*changed;
    let mut i: usize = 0;
    while i < seen.len()
        invariant
            i <= seen@.len(),
            forall|j: int| 0 <= j < i ==> seen@[j]@ != key@,
            k@ == key@,
            seen@ == old(changed)@,
        decreases seen@.len() - i,
    {
        if seen[i] == k {
            assert(views(seen@)[i as int] == key@);
            assert(views(old(changed)@).contains(key@));
            return;
        }
        i = i + 1;
    }
    assert(!views(changed@).contains(key@));
    changed.push(k);
    assert(views(changed@) =~= views(old(changed)@).push(key@));
}

/// A store of typed facts that records, per kind, which keys changed.
pub struct FactStore {
    int_facts: FactTable<i64>,
    string_facts: FactTable<String>,
    bool_facts: FactTable<bool>,
    set_facts: FactTable<StringSet>,
    changed_ints: Vec<String>,
    changed_strings: Vec<String>,
    changed_bools: Vec<String>,
    changed_sets: Vec<String>,
}

impl View for FactStore {
    type V = StoreModel;

    closed spec fn view(&self) -> StoreModel {
        StoreModel {
            ints: self.int_facts@,
            strings: self.string_facts@.map_values(|s: String| s@),
            bools: self.bool_facts@,
            sets: self.set_facts@.map_values(|s: StringSet| s@),
            changed_ints: views(self.changed_ints@),
            changed_strings: views(self.changed_strings@),
            changed_bools: views(self.changed_bools@),
            changed_sets: views(self.changed_sets@),
        }
    }
}

impl FactStore {
    /// The tables are well formed and the model's invariant holds.
    pub closed spec fn wf(&self) -> bool {
        &&& self.int_facts.wf()
        &&& self.string_facts.wf()
        &&& self.bool_facts.wf()
        &&& self.set_facts.wf()
        &&& self.set_facts.members_wf()
        &&& self@.wf()
    }

    /// A well-formed store has a well-formed model.
    pub proof fn lemma_model_wf(&self)
        requires
            self.wf(),
        ensures
            self@.wf(),
    {
    }

    /// An empty store.
    pub fn new() -> (r: FactStore)
        ensures
            r.wf(),
            r@ == StoreModel::empty(),
    {
        let r = FactStore {
            int_facts: FactTable::new(),
            string_facts: FactTable::new(),
            bool_facts: FactTable::new(),
            set_facts: FactTable::new(),
            changed_ints: Vec::new(),
            changed_strings: Vec::new(),
            changed_bools: Vec::new(),
            changed_sets: Vec::new(),
        };
        assert(r@.strings =~= Map::empty());
        assert(r@.sets =~= Map::empty());
        assert(r@.changed_ints =~= Seq::empty());
        assert(r@.changed_strings =~= Seq::empty());
        assert(r@.changed_bools =~= Seq::empty());
        assert(r@.changed_sets =~= Seq::empty());
        r
    }

    /// Writes the int `value` under `key`. Returns whether it differs from the
    /// value held before, an absent value counting as 0; only then is `key`
    /// recorded as changed.
    pub fn set_int(&mut self, key: &str, value: i64) -> (r: bool)
        requires
            old(self).wf(),
        ensures
            final(self).wf(),
            r == (old(self)@.int_or_default(key@) != value),
            final(self)@ == old(self)@.with_int(key@, value),
    {
        let current: i64 = match self.int_facts.get(key) {
            Some(v) => *v,
            None => 0,
        };
        let changed = current != value;
        self.int_facts.insert(key, value);
        if changed {
            mark_changed(&mut self.changed_ints, key);
        }
        proof {
            let m = old(self)@.with_int(key@, value);
            assert(self@.strings =~= m.strings);
            assert(self@.sets =~= m.sets);
            assert(self@ == m);
            assert forall|kind: FactKind| #![trigger m.changed(kind)] m.changed(kind).no_duplicates() && forall|i: int|
                0 <= i < m.changed(kind).len() ==> m.has(kind, #[trigger] m.changed(kind)[i]) by {
                assert(old(self)@.changed(kind).no_duplicates());
            }
        }
        changed
    }

    /// Adds `delta` to the int under `key` (0 where absent) and writes the sum as
    /// `set_int` does. Returns whether the value changed, that is whether `delta`
    /// is not 0.
    pub fn add_int(&mut self, key: &str, delta: i64) -> (r: bool)
        requires
            old(self).wf(),
            i64::MIN <= old(self)@.int_or_default(key@) + delta <= i64::MAX,
        ensures
            final(self).wf(),
            r == (delta != 0),
            final(self)@ == old(self)@.with_int(key@, (old(self)@.int_or_default(key@) + delta) as i64),
    {
        let current: i64 = match self.int_facts.get(key) {
            Some(v) => *v,
            None => 0,
        };
        self.set_int(key, current + delta)
    }

    /// Subtracts `delta` from the int under `key` (0 where absent) and writes the
    /// difference as `set_int` does. Returns whether the value changed, that is
    /// whether `delta` is not 0.
    pub fn sub_int(&mut self, key: &str, delta: i64) -> (r: bool)
        requires
            old(self).wf(),
            i64::MIN <= old(self)@.int_or_default(key@) - delta <= i64::MAX,
        ensures
            final(self).wf(),
            r == (delta != 0),
            final(self)@ == old(self)@.with_int(key@, (old(self)@.int_or_default(key@) - delta) as i64),
    {
        let current: i64 = match self.int_facts.get(key) {
            Some(v) => *v,
            None => 0,
        };
        self.set_int(key, current - delta)
    }

    /// Writes the string `value` under `key`. Returns whether it differs from the
    /// value held before, an absent value counting as the empty string; only
    /// then is `key` recorded as changed.
    pub fn set_string(&mut self, key: &str, value: &str) -> (r: bool)
        requires
            old(self).wf(),
        ensures
            final(self).wf(),
            r == (old(self)@.string_or_default(key@) != value@),
            final(self)@ == old(self)@.with_string(key@, value@),
    {
        let v = value.to_owned();
        let changed = match self.string_facts.get(key) {
            Some(current) => *current != v,
            None => v != String::new(),
        };
        self.string_facts.insert(key, v);
        if changed {
            mark_changed(&mut self.changed_strings, key);
        }
        proof {
            let m = old(self)@.with_string(key@, value@);
            assert(self@.strings =~= m.strings);
            assert(self@.sets =~= m.sets);
            assert(self@ == m);
            assert forall|kind: FactKind| #![trigger m.changed(kind)] m.changed(kind).no_duplicates() && forall|i: int|
                0 <= i < m.changed(kind).len() ==> m.has(kind, #[trigger] m.changed(kind)[i]) by {
                assert(old(self)@.changed(kind).no_duplicates());
            }
        }
        changed
    }

    /// Writes the bool `value` under `key`. Returns whether it differs from the
    /// value held before, an absent value counting as false; only then is `key`
    /// recorded as changed.
    pub fn set_bool(&mut self, key: &str, value: bool) -> (r: bool)
        requires
            old(self).wf(),
        ensures
            final(self).wf(),
            r == (old(self)@.bool_or_default(key@) != value),
            final(self)@ == old(self)@.with_bool(key@, value),
    {
        let current: bool = match self.bool_facts.get(key) {
            Some(v) => *v,
            None => false,
        };
        let changed = current != value;
        self.bool_facts.insert(key, value);
        if changed {
            mark_changed(&mut self.changed_bools, key);
        }
        proof {
            let m = old(self)@.with_bool(key@, value);
            assert(self@.strings =~= m.strings);
            assert(self@.sets =~= m.sets);
            assert(self@ == m);
            assert forall|kind: FactKind| #![trigger m.changed(kind)] m.changed(kind).no_duplicates() && forall|i: int|
                0 <= i < m.changed(kind).len() ==> m.has(kind, #[trigger] m.changed(kind)[i]) by {
                assert(old(self)@.changed(kind).no_duplicates());
            }
        }
        changed
    }

    /// Adds `value` to the set under `key`, creating the set where there is
    /// none. Returns whether `value` was not a member before; only then is `key`
    /// recorded as changed.
    pub fn add_to_set(&mut self, key: &str, value: &str) -> (r: bool)
        requires
            old(self).wf(),
        ensures
            final(self).wf(),
            r == !old(self)@.set_or_empty(key@).contains(value@),
            final(self)@ == old(self)@.with_member(key@, value@),
    {
        let changed = self.set_facts.add_member(key, value);
        if changed {
            mark_changed(&mut self.changed_sets, key);
        }
        proof {
            let m = old(self)@.with_member(key@, value@);
            assert(self@.strings =~= m.strings);
            assert(self@.sets =~= m.sets);
            assert(self@ == m);
            assert forall|kind: FactKind| #![trigger m.changed(kind)] m.changed(kind).no_duplicates() && forall|i: int|
                0 <= i < m.changed(kind).len() ==> m.has(kind, #[trigger] m.changed(kind)[i]) by {
                assert(old(self)@.changed(kind).no_duplicates());
            }
        }
        changed
    }

    /// Removes `value` from the set under `key`. Returns whether it was a
    /// member; only then is `key` recorded as changed. Where no set is held
    /// under `key` nothing happens.
    pub fn remove_from_set(&mut self, key: &str, value: &str) -> (r: bool)
        requires
            old(self).wf(),
        ensures
            final(self).wf(),
            r == old(self)@.set_or_empty(key@).contains(value@),
            final(self)@ == old(self)@.without_member(key@, value@),
    {
        let changed = self.set_facts.remove_member(key, value);
        if changed {
            mark_changed(&mut self.changed_sets, key);
        }
        proof {
            let m = old(self)@.without_member(key@, value@);
            if old(self).set_facts@.contains_key(key@) && !changed {
                assert(self.set_facts@[key@]@ =~= old(self).set_facts@[key@]@);
            }
            assert(self@.strings =~= m.strings);
            assert(self@.sets =~= m.sets);
            assert(self@ == m);
            assert forall|kind: FactKind| #![trigger m.changed(kind)] m.changed(kind).no_duplicates() && forall|i: int|
                0 <= i < m.changed(kind).len() ==> m.has(kind, #[trigger] m.changed(kind)[i]) by {
                assert(old(self)@.changed(kind).no_duplicates());
            }
        }
        changed
    }

    /// The int under `key`, if one was written.
    pub fn get_int(&self, key: &str) -> (r: Option<i64>)
        requires
            self.wf(),
        ensures
            r == (if self@.ints.contains_key(key@) { Some(self@.ints[key@]) } else { None::<i64> }),
    {
        match self.int_facts.get(key) {
            Some(v) => Some(*v),
            None => None,
        }
    }

    /// The string under `key`, if one was written.
    pub fn get_string(&self, key: &str) -> (r: Option<&String>)
        requires
            self.wf(),
        ensures
            match r {
                Some(s) => self@.strings.contains_key(key@) && s@ == self@.strings[key@],
                None => !self@.strings.contains_key(key@),
            },
    {
        self.string_facts.get(key)
    }

    /// The bool under `key`, if one was written.
    pub fn get_bool(&self, key: &str) -> (r: Option<bool>)
        requires
            self.wf(),
        ensures
            r == (if self@.bools.contains_key(key@) { Some(self@.bools[key@]) } else { None::<bool> }),
    {
        match self.bool_facts.get(key) {
            Some(v) => Some(*v),
            None => None,
        }
    }

    /// The set under `key`, if one was written.
    pub fn get_set(&self, key: &str) -> (r: Option<&StringSet>)
        requires
            self.wf(),
        ensures
            match r {
                Some(s) => s.wf() && self@.sets.contains_key(key@) && s@ == self@.sets[key@],
                None => !self@.sets.contains_key(key@),
            },
    {
        self.set_facts.get(key)
    }

    /// Returns the keys of `kind` changed since its last drain, in the order in
    /// which each first changed, and clears them.
    pub fn drain_changed(&mut self, kind: FactKind) -> (r: Vec<String>)
        requires
            old(self).wf(),
        ensures
            final(self).wf(),
            views(r@) == old(self)@.changed(kind),
            final(self)@ == old(self)@.drained(kind),
    {
        let mut out: Vec<String> = Vec::new();
        match kind {
            FactKind::Int => std::mem::swap(&mut out, &mut self.changed_ints),
            FactKind::Str => std::mem::swap(&mut out, &mut self.changed_strings),
            FactKind::Bool => std::mem::swap(&mut out, &mut self.changed_bools),
            FactKind::StringSet => std::mem::swap(&mut out, &mut self.changed_sets),
        }
        proof {
            let m = old(self)@.drained(kind);
            assert(self@.strings =~= m.strings);
            assert(self@.sets =~= m.sets);
            assert(self@.changed(kind) =~= m.changed(kind));
            assert(self@ == m);
            assert forall|k: FactKind| #![trigger m.changed(k)] m.changed(k).no_duplicates() && forall|i: int|
                0 <= i < m.changed(k).len() ==> m.has(k, #[trigger] m.changed(k)[i]) by {
                assert(old(self)@.changed(k).no_duplicates());
            }
        }
        out
    }
}

} // verus!
