//! Values that name the fact they carry.
use vstd::prelude::*;

use crate::notify::FactUpdated;

verus! {

/// A value that names a fact by its key.
pub trait Fact {
    /// The key, as a sequence of characters.
    spec fn key_view(&self) -> Seq<char>;

    /// The key of the fact.
    fn key(&self) -> (r: &str)
        ensures
            r@ == self.key_view(),
    ;
}

impl Fact for FactUpdated {
    open spec fn key_view(&self) -> Seq<char> {
        self.key@
    }

    fn key(&self) -> (r: &str) {
        self.key.as_str()
    }
}

} // verus!
