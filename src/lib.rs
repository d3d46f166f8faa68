//! A typed fact store with change tracking, and a rule evaluator over it.
//!
//! The store keeps four namespaces of facts (ints, strings, bools and sets of
//! strings) and, per namespace, the keys whose value changed since they were
//! last drained. Rules are conjunctions of conditions evaluated against a store.
pub mod keyed;
pub mod laws;
pub mod notify;
pub mod rules;
pub mod store;
pub mod string_set;
pub mod table;

pub use keyed::Fact as KeyedFact;
pub use notify::{Fact, FactUpdated};
pub use rules::{Condition, Rule};
pub use store::{FactKind, FactStore};
pub use string_set::StringSet;
