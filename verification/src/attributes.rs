//! Span attributes: an ordered list of `(name, value)` pairs.
//!
//! The list keeps the order in which pairs were added and, through
//! [`SpanAttributes::push`], may hold several values for one name (a batch of
//! observations for the same attribute). [`SpanAttributes::insert`] gives the
//! usual map behaviour: it replaces the value of the first pair with that name,
//! or appends a new pair.
//!
//! The pairs are a vector searched linearly: a list keeps the order in which
//! attributes are observed, which the first-N-wins cardinality cap depends
//! on, and vectors have exact contracts where the standard hash map, with
//! `String` keys, has none that proofs can use.

use vstd::prelude::*;

verus! {

/// The abstract content of a [`SpanAttributes`]: its pairs, in order.
pub type AttrPairs = Seq<(Seq<char>, Seq<char>)>;

/// `i` is the position of the first pair named `name`.
pub open spec fn is_first_named(s: AttrPairs, name: Seq<char>, i: int) -> bool {
    &&& 0 <= i < s.len()
    &&& s[i].0 == name
    &&& forall|j: int| 0 <= j < i ==> s[j].0 != name
}

/// Some pair is named `name`.
pub open spec fn has_name(s: AttrPairs, name: Seq<char>) -> bool {
    exists|i: int| 0 <= i < s.len() && s[i].0 == name
}

/// Position of the first pair named `name` (meaningful when [`has_name`]).
pub open spec fn first_index_named(s: AttrPairs, name: Seq<char>) -> int {
    choose|i: int| is_first_named(s, name, i)
}

/// The value of the first pair named `name`, if any.
pub open spec fn lookup(s: AttrPairs, name: Seq<char>) -> Option<Seq<char>> {
    if has_name(s, name) {
        Some(s[first_index_named(s, name)].1)
    } else {
        None
    }
}

/// The values of the pairs, in order.
pub open spec fn values_of(s: AttrPairs) -> Seq<Seq<char>> {
    s.map_values(|p: (Seq<char>, Seq<char>)| p.1)
}

/// The first pair with a given name is unique.
pub proof fn lemma_first_named_unique(s: AttrPairs, name: Seq<char>, i: int, k: int)
    requires
        is_first_named(s, name, i),
        is_first_named(s, name, k),
    ensures
        i == k,
{
    if i < k {
        assert(s[i].0 != name);
    } else if k < i {
        assert(s[k].0 != name);
    }
}

/// If some pair is named `name`, the first such pair exists and is what
/// [`first_index_named`] picks.
pub proof fn lemma_first_named_exists(s: AttrPairs, name: Seq<char>)
    requires
        has_name(s, name),
    ensures
        is_first_named(s, name, first_index_named(s, name)),
    decreases s.len(),
{
    let k = choose|k: int| 0 <= k < s.len() && s[k].0 == name;
    let t = s.drop_last();
    if has_name(t, name) {
        lemma_first_named_exists(t, name);
        let i = first_index_named(t, name);
        assert forall|j: int| 0 <= j < i implies s[j].0 != name by {
            assert(s[j] == t[j]);
        }
        assert(s[i] == t[i]);
        assert(is_first_named(s, name, i));
    } else {
        if k < s.len() - 1 {
            assert(t[k] == s[k]);
        }
        assert forall|j: int| 0 <= j < k implies s[j].0 != name by {
            assert(t[j] == s[j]);
        }
        assert(is_first_named(s, name, k));
    }
}

/// An ordered list of `(name, value)` span attributes.
#[derive(Debug, Clone, PartialEq, Eq, Default)]
pub struct SpanAttributes {
    pairs: Vec<(String, String)>,
}

impl View for SpanAttributes {
    type V = AttrPairs;

    closed spec fn view(&self) -> AttrPairs {
        self.pairs@.map_values(|p: (String, String)| (p.0@, p.1@))
    }
}

impl SpanAttributes {
    /// An empty attribute list.
    pub fn new() -> (a: Self)
        ensures
            a@ == Seq::<(Seq<char>, Seq<char>)>::empty(),
    {
        let a = SpanAttributes { pairs: Vec::new() };
        assert(a@ =~= Seq::<(Seq<char>, Seq<char>)>::empty());
        a
    }

    /// Number of pairs.
    pub fn len(&self) -> (n: usize)
        ensures
            n == self@.len(),
    {
        self.pairs.len()
    }

    /// True when there is no pair.
    pub fn is_empty(&self) -> (b: bool)
        ensures
            b == (self@.len() == 0),
    {
        self.pairs.len() == 0
    }

    /// Appends a pair, keeping any earlier pair with the same name.
    pub fn push(&mut self, name: String, value: String)
        ensures
            final(self)@ == old(self)@.push((name@, value@)),
    {
        self.pairs.push((name, value));
        assert(self@ =~= old(self)@.push((name@, value@)));
    }

    /// Map-style insertion: replaces the value of the first pair named `name`
    /// and returns the value it had, or appends the pair and returns `None`.
    pub fn insert(&mut self, name: String, value: String) -> (prev: Option<String>)
        ensures
            match lookup(old(self)@, name@) {
                None => {
                    &&& prev is None
                    &&& final(self)@ == old(self)@.push((name@, value@))
                },
                Some(v) => {
                    &&& prev matches Some(p) && p@ == v
                    &&& final(self)@ == old(self)@.update(
                        first_index_named(old(self)@, name@),
                        (name@, value@),
                    )
                },
            },
    {
        let mut i: usize = 0;
        while i < self.pairs.len()
            invariant
                i <= self.pairs.len(),
                self@ == old(self)@,
                self.pairs@.len() == old(self)@.len(),
                forall|j: int| 0 <= j < i ==> old(self)@[j].0 != name@,
            decreases self.pairs.len() - i,
        {
            if self.pairs[i].0 == name {
                proof {
                    assert(self@[i as int] == (self.pairs@[i as int].0@, self.pairs@[i as int].1@));
                    assert(is_first_named(old(self)@, name@, i as int));
                    lemma_first_named_exists(old(self)@, name@);
                    lemma_first_named_unique(
                        old(self)@,
                        name@,
                        i as int,
                        first_index_named(old(self)@, name@),
                    );
                }
                let old_value = self.pairs[i].1.clone();
                let ghost before = self@;
                self.pairs.set(i, (name, value));
                assert(self@ =~= before.update(i as int, (name@, value@)));
                return Some(old_value);
            }
            proof {
                assert(self@[i as int] == (self.pairs@[i as int].0@, self.pairs@[i as int].1@));
            }
            i += 1;
        }
        self.pairs.push((name, value));
        assert(self@ =~= old(self)@.push((name@, value@)));
        None
    }

    /// The value of the first pair named `name`, if any.
    pub fn get(&self, name: &str) -> (r: Option<&String>)
        ensures
            match lookup(self@, name@) {
                None => r is None,
                Some(v) => r matches Some(s) && s@ == v,
            },
    {
        let key = name.to_owned();
        let mut i: usize = 0;
        while i < self.pairs.len()
            invariant
                i <= self.pairs.len(),
                key@ == name@,
                forall|j: int| 0 <= j < i ==> self@[j].0 != name@,
            decreases self.pairs.len() - i,
        {
            proof {
                assert(self@[i as int] == (self.pairs@[i as int].0@, self.pairs@[i as int].1@));
            }
            if self.pairs[i].0 == key {
                proof {
                    assert(is_first_named(self@, name@, i as int));
                    lemma_first_named_exists(self@, name@);
                    lemma_first_named_unique(self@, name@, i as int, first_index_named(self@, name@));
                }
                return Some(&self.pairs[i].1);
            }
            i += 1;
        }
        None
    }

    /// The name of the pair at position `i`.
    pub fn name_at(&self, i: usize) -> (n: &String)
        requires
            i < self@.len(),
        ensures
            n@ == self@[i as int].0,
    {
        &self.pairs[i].0
    }

    /// The value of the pair at position `i`.
    pub fn value_at(&self, i: usize) -> (v: &String)
        requires
            i < self@.len(),
        ensures
            v@ == self@[i as int].1,
    {
        &self.pairs[i].1
    }

    /// Replaces the value of the pair at position `i`, keeping its name.
    pub fn set_value_at(&mut self, i: usize, value: String)
        requires
            i < old(self)@.len(),
        ensures
            final(self)@ == old(self)@.update(i as int, (old(self)@[i as int].0, value@)),
    {
        let name = self.pairs[i].0.clone();
        self.pairs.set(i, (name, value));
        assert(self@ =~= old(self)@.update(i as int, (old(self)@[i as int].0, value@)));
    }

    /// The pairs, in order.
    pub fn pairs(&self) -> (r: &[(String, String)])
        ensures
            r@.len() == self@.len(),
            forall|i: int| 0 <= i < r@.len() ==> (#[trigger] r@[i]).0@ == self@[i].0 && r@[i].1@ == self@[i].1,
    {
        self.pairs.as_slice()
    }

    /// The values, in order.
    pub fn values(&self) -> (r: Vec<String>)
        ensures
            r@.len() == self@.len(),
            forall|i: int| 0 <= i < r@.len() ==> (#[trigger] r@[i])@ == self@[i].1,
    {
        let mut out: Vec<String> = Vec::new();
        let mut i: usize = 0;
        while i < self.pairs.len()
            invariant
                i <= self.pairs.len(),
                out@.len() == i,
                forall|j: int| 0 <= j < i ==> (#[trigger] out@[j])@ == self@[j].1,
            decreases self.pairs.len() - i,
        {
            out.push(self.pairs[i].1.clone());
            i += 1;
        }
        out
    }
}

} // verus!
