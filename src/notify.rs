//! Change notification: draining the changed-sets of a store into one update
//! per changed key, with the fact that the key now holds.
use vstd::prelude::*;

use crate::store::{FactKind, FactStore, StoreModel};
use crate::string_set::StringSet;

verus! {

/// A fact of one of the four kinds.
#[derive(Debug)]
pub enum Fact {
    Int(i64),
    Str(String),
    Bool(bool),
    StringSet(StringSet),
}

/// The value of a fact.
pub enum FactValue {
    Int(i64),
    Str(Seq<char>),
    Bool(bool),
    StringSet(Set<Seq<char>>),
}

impl View for Fact {
    type V = FactValue;

    open spec fn view(&self) -> FactValue {
        match self {
            Fact::Int(n) => FactValue::Int(*n),
            Fact::Str(s) => FactValue::Str(s@),
            Fact::Bool(b) => FactValue::Bool(*b),
            Fact::StringSet(s) => FactValue::StringSet(s@),
        }
    }
}

/// A key whose fact changed, and the fact it holds now.
#[derive(Debug)]
pub struct FactUpdated {
    pub key: String,
    pub fact: Fact,
}

impl View for FactUpdated {
    type V = (Seq<char>, FactValue);

    open spec fn view(&self) -> (Seq<char>, FactValue) {
        (self.key@, self.fact@)
    }
}

/// The updates for the changed keys of `kind`, in the order of its changed-set.
pub open spec fn updates_of(m: StoreModel, kind: FactKind) -> Seq<(Seq<char>, FactValue)> {
    m.changed(kind).map_values(
        |k: Seq<char>|
            (k, match kind {
                FactKind::Int => FactValue::Int(m.ints[k]),
                FactKind::Str => FactValue::Str(m.strings[k]),
                FactKind::Bool => FactValue::Bool(m.bools[k]),
                FactKind::StringSet => FactValue::StringSet(m.sets[k]),
            }),
    )
}

/// All updates of a store: the int keys, then the string keys, then the bool
/// keys, then the set keys.
pub open spec fn updates(m: StoreModel) -> Seq<(Seq<char>, FactValue)> {
    updates_of(m, FactKind::Int) + updates_of(m, FactKind::Str) + updates_of(m, FactKind::Bool)
        + updates_of(m, FactKind::StringSet)
}

/// The store with every changed-set cleared.
pub open spec fn drained_all(m: StoreModel) -> StoreModel {
    m.drained(FactKind::Int).drained(FactKind::Str).drained(FactKind::Bool).drained(
        FactKind::StringSet,
    )
}

/// The views of a sequence of updates.
pub open spec fn update_views(s: Seq<FactUpdated>) -> Seq<(Seq<char>, FactValue)> {
    s.map_values(|u: FactUpdated| u@)
}

/// The fact of `kind` under `key`, which must hold one.
fn current_fact(store: &FactStore, kind: FactKind, key: &str) -> (r: Fact)
    requires
        store.wf(),
        store@.has(kind, key@),
    ensures
        r@ == (match kind {
            FactKind::Int => FactValue::Int(store@.ints[key@]),
            FactKind::Str => FactValue::Str(store@.strings[key@]),
            FactKind::Bool => FactValue::Bool(store@.bools[key@]),
            FactKind::StringSet => FactValue::StringSet(store@.sets[key@]),
        }),
{
    match kind {
        FactKind::Int => match store.get_int(key) {
            Some(n) => Fact::Int(n),
            None => Fact::Int(0),
        },
        FactKind::Str => match store.get_string(key) {
            Some(s) => Fact::Str(s.clone()),
            None => Fact::Str(String::new()),
        },
        FactKind::Bool => match store.get_bool(key) {
            Some(b) => Fact::Bool(b),
            None => Fact::Bool(false),
        },
        FactKind::StringSet => match store.get_set(key) {
            Some(s) => Fact::StringSet(s.copy_of()),
            None => Fact::StringSet(StringSet::new()),
        },
    }
}

impl FactStore {
    /// Drains the changed-set of `kind` and appends to `out` one update per
    /// drained key, with the fact the key holds now.
    fn drain_kind_into(&mut self, kind: FactKind, out: &mut Vec<FactUpdated>)
        requires
            old(self).wf(),
        ensures
            final(self).wf(),
            final(self)@ == old(self)@.drained(kind),
            update_views(final(out)@) == update_views(old(out)@) + updates_of(old(self)@, kind),
    {
        let ghost before = self@;
        proof {
            self.lemma_model_wf();
        }
        let keys = self.drain_changed(kind);
        let mut i: usize = 0;
        while i < keys.len()
            invariant
                self.wf(),
                self@ == before.drained(kind),
                before.wf(),
                i <= keys@.len(),
                crate::string_set::views(keys@) == before.changed(kind),
                update_views(out@) =~= update_views(old(out)@) + updates_of(before, kind).subrange(0, i as int),
            decreases keys@.len() - i,
        {
            proof {
                assert(before.changed(kind)[i as int] == keys@[i as int]@);
                assert(before.has(kind, keys@[i as int]@));
            }
            let fact = current_fact(self, kind, keys[i].as_str());
            let u = FactUpdated { key: keys[i].clone(), fact };
            proof {
                assert(update_views(out@.push(u)) =~= update_views(out@).push(u@));
                assert(updates_of(before, kind).subrange(0, i + 1) =~= updates_of(before, kind).subrange(0, i as int).push(u@));
            }
            out.push(u);
            i = i + 1;
        }
        assert(updates_of(before, kind).subrange(0, keys@.len() as int) =~= updates_of(before, kind));
    }

    /// Drains every changed-set and returns one update per drained key, with
    /// the fact the key holds now: the int keys first, then the string keys,
    /// then the bool keys, then the set keys; within a kind, in the order in
    /// which the keys first changed since the last drain.
    pub fn drain_updates(&mut self) -> (r: Vec<FactUpdated>)
        requires
            old(self).wf(),
        ensures
            final(self).wf(),
            update_views(r@) == updates(old(self)@),
            final(self)@ == drained_all(old(self)@),
    {
        let mut out: Vec<FactUpdated> = Vec::new();
        proof {
            assert(update_views(out@) =~= Seq::empty());
        }
        self.drain_kind_into(FactKind::Int, &mut out);
        self.drain_kind_into(FactKind::Str, &mut out);
        self.drain_kind_into(FactKind::Bool, &mut out);
        self.drain_kind_into(FactKind::StringSet, &mut out);
        proof {
            let m = old(self)@;
            assert(updates_of(m.drained(FactKind::Int), FactKind::Str) == updates_of(m, FactKind::Str));
            assert(updates_of(m.drained(FactKind::Int).drained(FactKind::Str), FactKind::Bool) == updates_of(m, FactKind::Bool));
            assert(updates_of(m.drained(FactKind::Int).drained(FactKind::Str).drained(FactKind::Bool), FactKind::StringSet)
                == updates_of(m, FactKind::StringSet));
            assert(update_views(out@) =~= updates(m));
        }
        out
    }
}

} // verus!
