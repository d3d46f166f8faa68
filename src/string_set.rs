//! A set of strings, kept as a vector of distinct members in order of insertion.
use vstd::prelude::*;

verus! {

/// The views of a sequence of strings.
pub open spec fn views(s: Seq<String>) -> Seq<Seq<char>> {
    s.map_values(|x: String| x@)
}

/// Taking the element at `i` out of a sequence without repeats takes exactly that
/// element out of its set, and leaves no repeats.
pub proof fn lemma_remove_to_set<A>(s: Seq<A>, i: int)
    requires
        s.no_duplicates(),
        0 <= i < s.len(),
    ensures
        s.remove(i).no_duplicates(),
        s.remove(i).to_set() == s.to_set().remove(s[i]),
{
    s.remove_ensures(i);
    let r = s.remove(i);
    assert forall|a: int, b: int| 0 <= a < b < r.len() implies r[a] != r[b] by {
        let a0 = if a < i { a } else { a + 1 };
        let b0 = if b < i { b } else { b + 1 };
        assert(r[a] == s[a0] && r[b] == s[b0]);
    }
    assert forall|x: A| r.to_set().contains(x) <==> s.to_set().remove(s[i]).contains(x) by {
        if r.contains(x) {
            let j = choose|j: int| 0 <= j < r.len() && r[j] == x;
            let j0 = if j < i { j } else { j + 1 };
            assert(s[j0] == x);
        }
        if s.contains(x) && x != s[i] {
            let j = choose|j: int| 0 <= j < s.len() && s[j] == x;
            if j < i {
                assert(r[j] == x);
            } else {
                assert(r[j - 1] == x);
            }
        }
    }
    assert(r.to_set() =~= s.to_set().remove(s[i]));
}

/// A set of strings with no repeated member.
#[derive(Debug)]
pub struct StringSet {
    items: Vec<String>,
}

impl View for StringSet {
    type V = Set<Seq<char>>;

    closed spec fn view(&self) -> Set<Seq<char>> {
        views(self.items@).to_set()
    }
}

impl StringSet {
    /// The members, in the order in which they were first inserted.
    pub closed spec fn members(&self) -> Seq<Seq<char>> {
        views(self.items@)
    }

    /// Each member is held once.
    pub closed spec fn wf(&self) -> bool {
        self.members().no_duplicates()
    }

    pub proof fn lemma_members(&self)
        ensures
            self@ == self.members().to_set(),
            self.wf() ==> self@.len() == self.members().len(),
    {
        if self.wf() {
            self.members().unique_seq_to_set();
        }
    }

    /// An empty set.
    pub fn new() -> (r: StringSet)
        ensures
            r.wf(),
            r@ == Set::<Seq<char>>::empty(),
    {
        let r = StringSet { items: Vec::new() };
        assert(r@ =~= Set::<Seq<char>>::empty());
        r
    }

    /// The position of `value` among the members, if it is one.
    fn position(&self, value: &String) -> (r: Option<usize>)
        ensures
            match r {
                Some(i) => i < self.members().len() && self.members()[i as int] == value@,
                None => !self.members().contains(value@),
            },
    {
        let mut i: usize = 0;
        while i < self.items.len()
            invariant
                i <= self.items@.len(),
                forall|j: int| 0 <= j < i ==> self.members()[j] != value@,
            decreases self.items@.len() - i,
        {
            if self.items[i] == *value {
                return Some(i);
            }
            i = i + 1;
        }
        None
    }

    /// The members as a vector, in the order in which they were first inserted.
    pub fn to_vec(&self) -> (r: Vec<String>)
        ensures
            views(r@) == self.members(),
    {
        let mut out: Vec<String> = Vec::new();
        let mut i: usize = 0;
        while i < self.items.len()
            invariant
                i <= self.items@.len(),
                views(out@) =~= self.members().subrange(0, i as int),
            decreases self.items@.len() - i,
        {
            let item = self.items[i].clone();
            proof {
                assert(views(out@.push(item)) =~= views(out@).push(item@));
            }
            out.push(item);
            i = i + 1;
        }
        assert(self.members().subrange(0, self.items@.len() as int) =~= self.members());
        out
    }

    /// A copy of the set.
    pub fn copy_of(&self) -> (r: StringSet)
        ensures
            r.members() == self.members(),
            r@ == self@,
            r.wf() == self.wf(),
    {
        StringSet { items: self.to_vec() }
    }

    /// Whether `value` is a member.
    pub fn contains(&self, value: &str) -> (r: bool)
        ensures
            r == self@.contains(value@),
    {
        let v = value.to_owned();
        let p = self.position(&v);
        p.is_some()
    }

    /// The number of members.
    pub fn len(&self) -> (r: usize)
        requires
            self.wf(),
        ensures
            r == self@.len(),
    {
        proof {
            self.lemma_members();
        }
        self.items.len()
    }

    /// Adds `value`; returns whether it was not a member before.
    pub fn insert(&mut self, value: &str) -> (r: bool)
        requires
            old(self).wf(),
        ensures
            final(self).wf(),
            r == !old(self)@.contains(value@),
            final(self)@ == old(self)@.insert(value@),
    {
        let v = value.to_owned();
        match self.position(&v) {
            Some(_) => {
                assert(self@ =~= self@.insert(value@));
                false
            },
            None => {
                self.items.push(v);
                assert(self.members() =~= old(self).members().push(value@));
                proof {
                    old(self).members().lemma_push_to_set_commute(value@);
                }
                true
            },
        }
    }

    /// Removes `value`; returns whether it was a member.
    pub fn remove(&mut self, value: &str) -> (r: bool)
        requires
            old(self).wf(),
        ensures
            final(self).wf(),
            r == old(self)@.contains(value@),
            final(self)@ == old(self)@.remove(value@),
    {
        let v = value.to_owned();
        match self.position(&v) {
            Some(i) => {
                self.items.remove(i);
                assert(self.members() =~= old(self).members().remove(i as int));
                proof {
                    lemma_remove_to_set(old(self).members(), i as int);
                }
                true
            },
            None => {
                assert(self@ =~= old(self)@.remove(value@));
                false
            },
        }
    }
}

} // verus!
