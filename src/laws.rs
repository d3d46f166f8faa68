//! Laws of the fact store and the rule evaluator, stated over their models.
use vstd::prelude::*;

use crate::rules::{Condition, Rule};
use crate::store::{FactKind, StoreModel};

verus! {

/// Writing the same int twice: the first write records the key as changed
/// where the value differs from the one before; the second write reports no
/// change and leaves the store, its changed-set included, as it was.
pub proof fn lemma_set_int_twice(m: StoreModel, k: Seq<char>, v: i64)
    ensures
        m.int_or_default(k) != v ==> m.with_int(k, v).changed_ints.contains(k),
        m.with_int(k, v).int_or_default(k) == v,
        m.with_int(k, v).with_int(k, v) == m.with_int(k, v),
{
    let m1 = m.with_int(k, v);
    if m.int_or_default(k) != v {
        if !m.changed_ints.contains(k) {
            assert(m1.changed_ints[m.changed_ints.len() as int] == k);
        }
    }
    assert(m1.ints.insert(k, v) =~= m1.ints);
}

/// Writing 0 as the first int under a key stores 0, yet does not record the
/// key as changed: an absent int compares as 0.
pub proof fn lemma_default_write_masked(m: StoreModel, k: Seq<char>)
    requires
        m.wf(),
        !m.ints.contains_key(k),
    ensures
        m.with_int(k, 0).ints[k] == 0,
        !m.with_int(k, 0).changed_ints.contains(k),
{
    if m.changed_ints.contains(k) {
        let i = choose|i: int| 0 <= i < m.changed_ints.len() && m.changed_ints[i] == k;
        assert(m.has(FactKind::Int, m.changed(FactKind::Int)[i]));
    }
}

/// Adding a member twice: the second addition reports no change and leaves
/// the store as the first left it.
pub proof fn lemma_add_to_set_twice(m: StoreModel, k: Seq<char>, v: Seq<char>)
    ensures
        m.with_member(k, v).set_or_empty(k).contains(v),
        m.with_member(k, v).with_member(k, v) == m.with_member(k, v),
{
    let m1 = m.with_member(k, v);
    assert(m1.set_or_empty(k).insert(v) =~= m1.set_or_empty(k));
    assert(m1.sets.insert(k, m1.set_or_empty(k)) =~= m1.sets);
}

/// Draining a changed-set empties it, so a second drain right after returns
/// nothing and changes nothing.
pub proof fn lemma_drain_twice(m: StoreModel, kind: FactKind)
    ensures
        m.drained(kind).changed(kind) == Seq::<Seq<char>>::empty(),
        m.drained(kind).drained(kind) == m.drained(kind),
{
}

/// After a drain of the int changed-set, writing a value other than 0 under a
/// key with no int records exactly that key.
pub proof fn lemma_drain_then_set_int(m: StoreModel, k: Seq<char>, v: i64)
    requires
        !m.ints.contains_key(k),
        v != 0,
    ensures
        m.drained(FactKind::Int).with_int(k, v).changed(FactKind::Int) == seq![k],
{
    assert(Seq::<Seq<char>>::empty().push(k) =~= seq![k]);
}

/// A write keeps each changed-set free of repeats, and a key already recorded
/// as changed leaves the int changed-set as it was, however often it changes.
pub proof fn lemma_changed_once(m: StoreModel, k: Seq<char>, v: i64)
    requires
        m.wf(),
    ensures
        m.with_int(k, v).wf(),
        m.changed_ints.contains(k) ==> m.with_int(k, v).changed_ints == m.changed_ints,
{
    let m1 = m.with_int(k, v);
    assert forall|kind: FactKind|
        #![trigger m1.changed(kind)]
        m1.changed(kind).no_duplicates() && forall|i: int|
            0 <= i < m1.changed(kind).len() ==> m1.has(kind, #[trigger] m1.changed(kind)[i]) by {
        assert(m.changed(kind).no_duplicates());
    }
}

/// An int condition on a key with no int is false, and its negation is true.
pub proof fn lemma_absent_negated(key: String, v: i64, m: StoreModel)
    requires
        !m.ints.contains_key(key@),
    ensures
        !Condition::IntEquals(key, v).holds(m),
        Condition::Not(Box::new(Condition::IntEquals(key, v))).holds(m),
{
    reveal_with_fuel(Condition::holds, 2);
}

/// A rule of two conditions holds exactly where both hold.
pub proof fn lemma_rule_of_two(r: Rule, m: StoreModel)
    requires
        r@.len() == 2,
    ensures
        r.holds(m) <==> r@[0].holds(m) && r@[1].holds(m),
{
}

} // verus!
