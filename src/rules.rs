//! Conditions over the facts of a store, and rules that conjoin them.
use vstd::prelude::*;

use crate::store::{FactStore, StoreModel};

verus! {

/// A test of one fact. A test of a fact that was never written is false;
/// `Not` inverts the test it owns.
#[derive(Debug)]
pub enum Condition {
    StringEquals(String, String),
    IntEquals(String, i64),
    IntGreaterThan(String, i64),
    IntLessThan(String, i64),
    BoolEquals(String, bool),
    SetContains(String, String),
    Not(Box<Condition>),
}

impl Condition {
    /// Whether the condition holds of the facts in `m`.
    pub open spec fn holds(&self, m: StoreModel) -> bool
        decreases self,
    {
        match self {
            Condition::StringEquals(k, v) => m.strings.contains_key(k@) && m.strings[k@] == v@,
            Condition::IntEquals(k, v) => m.ints.contains_key(k@) && m.ints[k@] == *v,
            Condition::IntGreaterThan(k, v) => m.ints.contains_key(k@) && m.ints[k@] > *v,
            Condition::IntLessThan(k, v) => m.ints.contains_key(k@) && m.ints[k@] < *v,
            Condition::BoolEquals(k, v) => m.bools.contains_key(k@) && m.bools[k@] == *v,
            Condition::SetContains(k, v) => m.sets.contains_key(k@) && m.sets[k@].contains(v@),
            Condition::Not(inner) => !inner.holds(m),
        }
    }

    /// Evaluates the condition against `store`, which it does not change.
    pub fn evaluate(&self, store: &FactStore) -> (r: bool)
        requires
            store.wf(),
        ensures
            r == self.holds(store@),
        decreases self,
    {
        match self {
            Condition::StringEquals(k, v) => match store.get_string(k.as_str()) {
                Some(s) => *s == *v,
                None => false,
            },
            Condition::IntEquals(k, v) => match store.get_int(k.as_str()) {
                Some(n) => n == *v,
                None => false,
            },
            Condition::IntGreaterThan(k, v) => match store.get_int(k.as_str()) {
                Some(n) => n > *v,
                None => false,
            },
            Condition::IntLessThan(k, v) => match store.get_int(k.as_str()) {
                Some(n) => n < *v,
                None => false,
            },
            Condition::BoolEquals(k, v) => match store.get_bool(k.as_str()) {
                Some(b) => b == *v,
                None => false,
            },
            Condition::SetContains(k, v) => match store.get_set(k.as_str()) {
                Some(s) => s.contains(v.as_str()),
                None => false,
            },
            Condition::Not(inner) => !inner.evaluate(store),
        }
    }
}

/// A conjunction of conditions.
pub struct Rule {
    conditions: Vec<Condition>,
}

impl View for Rule {
    type V = Seq<Condition>;

    closed spec fn view(&self) -> Seq<Condition> {
        self.conditions@
    }
}

impl Rule {
    /// Whether every condition of the rule holds of `m`.
    pub open spec fn holds(&self, m: StoreModel) -> bool {
        forall|i: int| 0 <= i < self@.len() ==> #[trigger] self@[i].holds(m)
    }

    /// A rule with no condition, which holds of every store.
    pub fn new() -> (r: Rule)
        ensures
            r@ == Seq::<Condition>::empty(),
    {
        Rule { conditions: Vec::new() }
    }

    /// Adds `condition` at the end of the rule.
    pub fn add_condition(&mut self, condition: Condition)
        ensures
            final(self)@ == old(self)@.push(condition),
    {
        self.conditions.push(condition);
    }

    /// Whether every condition holds in `store`; stops at the first that does not.
    pub fn evaluate(&self, store: &FactStore) -> (r: bool)
        requires
            store.wf(),
        ensures
            r == self.holds(store@),
    {
        let mut i: usize = 0;
        while i < self.conditions.len()
            invariant
                store.wf(),
                i <= self@.len(),
                forall|j: int| 0 <= j < i ==> #[trigger] self@[j].holds(store@),
            decreases self@.len() - i,
        {
            if !self.conditions[i].evaluate(store) {
                return false;
            }
            i = i + 1;
        }
        true
    }
}

} // verus!
