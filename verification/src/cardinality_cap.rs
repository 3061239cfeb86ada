//! Cardinality cap for span attributes.
//!
//! For each attribute name the cap is **first-N-wins**: the first `cap`
//! distinct values observed for a name are its winners and pass through
//! verbatim; a value that is already a winner always passes through; any
//! other value seen once the name has `cap` winners is replaced with the
//! overflow marker (default `__other__`) and is not recorded.
//!
//! The registry of winners is modelled as a map from attribute name to the
//! winners of that name in the order they were first seen. Processing a batch
//! of attributes is specified pair by pair, in order, by [`registry_after`],
//! [`capped_pairs`] and [`kept_count`].
//!
//! The registry is held as two vectors (names, and the winners of each name)
//! searched linearly, not as hash maps and sets: with `String` keys the
//! contracts of the standard hash collections cannot be relied on to prove
//! anything about lookups, while vectors have exact contracts. Lookups cost
//! O(number of names) for the name and O(cap) for the value.

use vstd::prelude::*;
use crate::attributes::{AttrPairs, SpanAttributes};

verus! {

/// Default cap: 100 unique values per attribute name.
pub const DEFAULT_CAP: usize = 100;

/// Default overflow marker substituted for values beyond the cap.
pub const DEFAULT_OVERFLOW_MARKER: &'static str = "__other__";

/// Winners per attribute name, in first-seen order.
pub type Registry = Map<Seq<char>, Seq<Seq<char>>>;

/// The winners recorded for `name` (none if the name was never seen).
pub open spec fn winners_of(reg: Registry, name: Seq<char>) -> Seq<Seq<char>> {
    if reg.contains_key(name) {
        reg[name]
    } else {
        Seq::empty()
    }
}

/// A value passes through verbatim when it is already a winner or when its
/// name has fewer than `cap` winners.
pub open spec fn admits(winners: Seq<Seq<char>>, cap: nat, value: Seq<char>) -> bool {
    winners.contains(value) || winners.len() < cap
}

/// The winners of a name after one of its values has been observed.
pub open spec fn winners_after(winners: Seq<Seq<char>>, cap: nat, value: Seq<char>) -> Seq<Seq<char>> {
    if winners.contains(value) || winners.len() >= cap {
        winners
    } else {
        winners.push(value)
    }
}

/// The registry after one `(name, value)` pair has been observed. The name is
/// recorded even when its value overflows.
pub open spec fn register(reg: Registry, cap: nat, name: Seq<char>, value: Seq<char>) -> Registry {
    reg.insert(name, winners_after(winners_of(reg, name), cap, value))
}

/// The registry after the pairs have been observed in order.
pub open spec fn registry_after(reg: Registry, cap: nat, pairs: AttrPairs) -> Registry
    decreases pairs.len(),
{
    if pairs.len() == 0 {
        reg
    } else {
        register(registry_after(reg, cap, pairs.drop_last()), cap, pairs.last().0, pairs.last().1)
    }
}

/// Whether pair `i` passes through verbatim, given the registry before the
/// batch.
pub open spec fn kept_at(reg: Registry, cap: nat, pairs: AttrPairs, i: int) -> bool {
    admits(winners_of(registry_after(reg, cap, pairs.take(i)), pairs[i].0), cap, pairs[i].1)
}

/// The value that pair `i` carries after the cap has been applied.
pub open spec fn capped_value(reg: Registry, cap: nat, marker: Seq<char>, pairs: AttrPairs, i: int) -> Seq<char> {
    if kept_at(reg, cap, pairs, i) {
        pairs[i].1
    } else {
        marker
    }
}

/// The pairs after the cap has been applied: same names, same order.
pub open spec fn capped_pairs(reg: Registry, cap: nat, marker: Seq<char>, pairs: AttrPairs) -> AttrPairs {
    Seq::new(pairs.len(), |i: int| (pairs[i].0, capped_value(reg, cap, marker, pairs, i)))
}

/// Number of pairs that pass through verbatim.
pub open spec fn kept_count(reg: Registry, cap: nat, pairs: AttrPairs) -> nat
    decreases pairs.len(),
{
    if pairs.len() == 0 {
        0
    } else {
        kept_count(reg, cap, pairs.drop_last()) + if kept_at(reg, cap, pairs, pairs.len() - 1) {
            1nat
        } else {
            0nat
        }
    }
}

/// Every name has at most `cap` winners, none of them twice.
pub open spec fn bounded(reg: Registry, cap: nat) -> bool {
    forall|n: Seq<char>| #[trigger] reg.contains_key(n) ==> reg[n].len() <= cap && reg[n].no_duplicates()
}

/// Report of one [`CardinalityCap::process`] call.
#[derive(Debug, Clone, Copy, PartialEq, Eq, Default, Structural)]
pub struct CardinalityReport {
    /// Number of attributes inspected.
    pub inspected: usize,
    /// Number of attributes passed through verbatim.
    pub kept: usize,
    /// Number of attributes replaced with the overflow marker.
    pub overflowed: usize,
}

/// Cardinality cap: the registry of winners, the cap and the overflow marker.
#[derive(Debug)]
pub struct CardinalityCap {
    cap: usize,
    overflow_marker: String,
    /// Attribute names seen so far, each once.
    names: Vec<String>,
    /// `winners[i]` are the winners of `names[i]`, in first-seen order.
    winners: Vec<Vec<String>>,
}

impl CardinalityCap {
    /// The configured cap.
    pub closed spec fn spec_cap(&self) -> nat {
        self.cap as nat
    }

    /// The configured overflow marker.
    pub closed spec fn spec_marker(&self) -> Seq<char> {
        self.overflow_marker@
    }

    closed spec fn winners_view(&self, i: int) -> Seq<Seq<char>> {
        self.winners@[i]@.map_values(|s: String| s@)
    }

    closed spec fn knows(&self, n: Seq<char>) -> bool {
        exists|i: int| 0 <= i < self.names@.len() && self.names@[i]@ == n
    }

    closed spec fn slot_of(&self, n: Seq<char>) -> int {
        choose|i: int| 0 <= i < self.names@.len() && self.names@[i]@ == n
    }

    /// The registry of winners.
    pub closed spec fn registry(&self) -> Registry {
        Map::new(|n: Seq<char>| self.knows(n), |n: Seq<char>| self.winners_view(self.slot_of(n)))
    }

    /// Internal consistency of the registry.
    pub closed spec fn wf(&self) -> bool {
        &&& self.names@.len() == self.winners@.len()
        &&& forall|i: int, j: int|
            0 <= i < j < self.names@.len() ==> (#[trigger] self.names@[i])@ != (#[trigger] self.names@[j])@
        &&& forall|i: int|
            0 <= i < self.winners@.len() ==> (#[trigger] self.winners_view(i)).no_duplicates()
                && self.winners_view(i).len() <= self.cap
    }

    proof fn lemma_registry_at(&self, i: int)
        requires
            self.wf(),
            0 <= i < self.names@.len(),
        ensures
            self.registry().contains_key(self.names@[i]@),
            self.registry()[self.names@[i]@] == self.winners_view(i),
    {
        let n = self.names@[i]@;
        assert(self.knows(n));
        let c = self.slot_of(n);
        if c < i {
            assert(self.names@[c]@ != self.names@[i]@);
        } else if i < c {
            assert(self.names@[i]@ != self.names@[c]@);
        }
    }

    /// The registry of a consistent cap is [`bounded`] by its cap.
    pub proof fn lemma_registry_bounded(&self)
        requires
            self.wf(),
        ensures
            bounded(self.registry(), self.spec_cap()),
    {
        assert forall|n: Seq<char>| #[trigger] self.registry().contains_key(n) implies self.registry()[n].len()
            <= self.spec_cap() && self.registry()[n].no_duplicates() by {
            let c = self.slot_of(n);
            self.lemma_registry_at(c);
            assert(self.winners_view(c).no_duplicates());
        }
    }

    /// A cap with a custom limit and the default overflow marker. `cap == 0`
    /// replaces every value with the marker.
    pub fn new(cap: usize) -> (c: Self)
        ensures
            c.wf(),
            c.spec_cap() == cap,
            c.spec_marker() == DEFAULT_OVERFLOW_MARKER@,
            c.registry() == Registry::empty(),
    {
        Self::with_overflow_marker(cap, DEFAULT_OVERFLOW_MARKER.to_owned())
    }

    /// A cap with the default limit (100) and the default overflow marker.
    pub fn with_default() -> (c: Self)
        ensures
            c.wf(),
            c.spec_cap() == DEFAULT_CAP,
            c.spec_marker() == DEFAULT_OVERFLOW_MARKER@,
            c.registry() == Registry::empty(),
    {
        Self::new(DEFAULT_CAP)
    }

    /// A cap with a custom limit and a custom overflow marker.
    pub fn with_overflow_marker(cap: usize, overflow_marker: String) -> (c: Self)
        ensures
            c.wf(),
            c.spec_cap() == cap,
            c.spec_marker() == overflow_marker@,
            c.registry() == Registry::empty(),
    {
        let c = CardinalityCap { cap, overflow_marker, names: Vec::new(), winners: Vec::new() };
        assert(c.registry() =~= Registry::empty());
        c
    }

    /// The configured cap (maximum unique values per attribute name).
    pub fn cap(&self) -> (n: usize)
        ensures
            n == self.spec_cap(),
    {
        self.cap
    }

    /// The configured overflow marker.
    pub fn overflow_marker(&self) -> (m: &str)
        ensures
            m@ == self.spec_marker(),
    {
        self.overflow_marker.as_str()
    }

    /// Finds the slot of `name`, creating an empty one when the name is new.
    fn slot_for(&mut self, name: &String) -> (idx: usize)
        requires
            old(self).wf(),
        ensures
            final(self).wf(),
            final(self).cap == old(self).cap,
            final(self).overflow_marker == old(self).overflow_marker,
            idx < final(self).names@.len(),
            final(self).names@[idx as int]@ == name@,
            final(self).winners_view(idx as int) == winners_of(old(self).registry(), name@),
            final(self).registry() == old(self).registry().insert(
                name@,
                winners_of(old(self).registry(), name@),
            ),
    {
        let ghost before = *self;
        let mut j: usize = 0;
        while j < self.names.len()
            invariant
                j <= self.names@.len(),
                *self == before,
                before.wf(),
                forall|k: int| 0 <= k < j ==> self.names@[k]@ != name@,
            decreases self.names.len() - j,
        {
            if self.names[j] == *name {
                proof {
                    self.lemma_registry_at(j as int);
                    assert(self.registry().insert(name@, self.registry()[name@]) =~= self.registry());
                }
                return j;
            }
            j += 1;
        }
        proof {
            assert(!before.registry().contains_key(name@));
        }
        self.names.push(name.clone());
        self.winners.push(Vec::new());
        proof {
            let last = before.names@.len() as int;
            assert(self.winners_view(last) =~= Seq::<Seq<char>>::empty());
            assert forall|k: int| 0 <= k < last implies self.winners_view(k) == before.winners_view(k) by {
                assert(self.winners@[k] == before.winners@[k]);
            }
            assert forall|a: int, b: int|
                0 <= a < b < self.names@.len() implies (#[trigger] self.names@[a])@ != (#[trigger] self.names@[b])@ by {
                if b < last {
                    assert(self.names@[a] == before.names@[a]);
                    assert(self.names@[b] == before.names@[b]);
                }
            }
            assert forall|k: int| 0 <= k < self.winners@.len() implies (#[trigger] self.winners_view(k)).no_duplicates()
                && self.winners_view(k).len() <= self.cap by {
                if k < last {
                    assert(before.winners_view(k).no_duplicates());
                }
            }
            assert(self.wf());
            let target = before.registry().insert(name@, Seq::<Seq<char>>::empty());
            assert forall|n: Seq<char>| #[trigger] self.registry().contains_key(n) <==> target.contains_key(n) by {
                if n == name@ {
                    self.lemma_registry_at(last);
                } else if before.registry().contains_key(n) {
                    let c = before.slot_of(n);
                    assert(self.names@[c] == before.names@[c]);
                    self.lemma_registry_at(c);
                } else if self.registry().contains_key(n) {
                    let c = self.slot_of(n);
                    assert(self.names@[c] == before.names@[c]);
                    assert(before.knows(n));
                }
            }
            assert forall|n: Seq<char>| #[trigger] self.registry().contains_key(n) implies self.registry()[n]
                == target[n] by {
                if n == name@ {
                    self.lemma_registry_at(last);
                } else {
                    let c = before.slot_of(n);
                    assert(self.names@[c] == before.names@[c]);
                    self.lemma_registry_at(c);
                    before.lemma_registry_at(c);
                }
            }
            assert(self.registry() =~= target);
        }
        self.names.len() - 1
    }

    /// Whether `value` is already a winner in slot `idx`.
    fn slot_contains(&self, idx: usize, value: &String) -> (b: bool)
        requires
            idx < self.winners@.len(),
        ensures
            b == self.winners_view(idx as int).contains(value@),
    {
        let slot = &self.winners[idx];
        let mut k: usize = 0;
        while k < slot.len()
            invariant
                k <= slot@.len(),
                *slot == self.winners@[idx as int],
                forall|m: int| 0 <= m < k ==> slot@[m]@ != value@,
            decreases slot.len() - k,
        {
            if slot[k] == *value {
                assert(self.winners_view(idx as int)[k as int] == value@);
                return true;
            }
            k += 1;
        }
        proof {
            if self.winners_view(idx as int).contains(value@) {
                let m = choose|m: int| 0 <= m < self.winners_view(idx as int).len() && self.winners_view(idx as int)[m]
                    == value@;
                assert(slot@[m]@ == value@);
            }
        }
        false
    }

    /// Records `value` as a new winner of slot `idx`.
    fn add_winner(&mut self, idx: usize, value: String)
        requires
            old(self).wf(),
            idx < old(self).winners@.len(),
            !old(self).winners_view(idx as int).contains(value@),
            old(self).winners_view(idx as int).len() < old(self).cap,
        ensures
            final(self).wf(),
            final(self).cap == old(self).cap,
            final(self).overflow_marker == old(self).overflow_marker,
            final(self).names == old(self).names,
            final(self).registry() == old(self).registry().insert(
                old(self).names@[idx as int]@,
                old(self).winners_view(idx as int).push(value@),
            ),
    {
        let ghost before = *self;
        let ghost v = value@;
        self.winners[idx].push(value);
        proof {
            let i = idx as int;
            assert(self.winners_view(i) =~= before.winners_view(i).push(v));
            assert forall|k: int| 0 <= k < self.winners@.len() && k != i implies self.winners_view(k)
                == before.winners_view(k) by {
                assert(self.winners@[k] == before.winners@[k]);
            }
            assert forall|k: int| 0 <= k < self.winners@.len() implies (#[trigger] self.winners_view(k)).no_duplicates()
                && self.winners_view(k).len() <= self.cap by {
                if k != i {
                    assert(before.winners_view(k).no_duplicates());
                } else {
                    assert(before.winners_view(i).no_duplicates());
                }
            }
            assert(self.wf());
            let target = before.registry().insert(before.names@[i]@, before.winners_view(i).push(v));
            assert forall|n: Seq<char>| #[trigger] self.registry().contains_key(n) <==> target.contains_key(n) by {
                if n == before.names@[i]@ {
                    self.lemma_registry_at(i);
                } else {
                    assert(self.knows(n) == before.knows(n));
                }
            }
            assert forall|n: Seq<char>| #[trigger] self.registry().contains_key(n) implies self.registry()[n]
                == target[n] by {
                if n == before.names@[i]@ {
                    self.lemma_registry_at(i);
                } else {
                    let c = self.slot_of(n);
                    self.lemma_registry_at(c);
                    before.lemma_registry_at(c);
                }
            }
            assert(self.registry() =~= target);
        }
    }

    /// Applies the cap in place to a batch of attributes, pair by pair in
    /// order, and reports what it did.
    pub fn process(&mut self, attrs: &mut SpanAttributes) -> (report: CardinalityReport)
        requires
            old(self).wf(),
        ensures
            final(self).wf(),
            final(self).spec_cap() == old(self).spec_cap(),
            final(self).spec_marker() == old(self).spec_marker(),
            final(self).registry() == registry_after(old(self).registry(), old(self).spec_cap(), old(attrs)@),
            final(attrs)@ == capped_pairs(
                old(self).registry(),
                old(self).spec_cap(),
                old(self).spec_marker(),
                old(attrs)@,
            ),
            report.inspected == old(attrs)@.len(),
            report.kept == kept_count(old(self).registry(), old(self).spec_cap(), old(attrs)@),
            report.kept + report.overflowed == report.inspected,
    {
        let ghost reg0 = self.registry();
        let ghost pairs0 = attrs@;
        let ghost cap = self.cap as nat;
        let ghost marker = self.overflow_marker@;
        let mut report = CardinalityReport { inspected: 0, kept: 0, overflowed: 0 };
        let n = attrs.len();
        let mut i: usize = 0;
        assert(pairs0.take(0) =~= Seq::<(Seq<char>, Seq<char>)>::empty());
        while i < n
            invariant
                i <= n,
                n == pairs0.len(),
                attrs@.len() == n,
                self.wf(),
                self.cap == cap,
                self.overflow_marker@ == marker,
                self.registry() == registry_after(reg0, cap, pairs0.take(i as int)),
                forall|j: int| 0 <= j < i ==> #[trigger] attrs@[j] == (pairs0[j].0, capped_value(reg0, cap, marker, pairs0, j)),
                forall|j: int| i <= j < n ==> #[trigger] attrs@[j] == pairs0[j],
                report.inspected == i,
                report.kept == kept_count(reg0, cap, pairs0.take(i as int)),
                report.kept + report.overflowed == i,
            decreases n - i,
        {
            let name = attrs.name_at(i).clone();
            let value = attrs.value_at(i).clone();
            let ghost reg_i = self.registry();
            let ghost w = winners_of(reg_i, name@);
            proof {
                let next = pairs0.take(i + 1);
                assert(next.drop_last() =~= pairs0.take(i as int));
                assert(next.last() == pairs0[i as int]);
                assert(next.take(i as int) =~= pairs0.take(i as int));
                assert(name@ == pairs0[i as int].0);
                assert(value@ == pairs0[i as int].1);
            }
            let idx = self.slot_for(&name);
            report.inspected = report.inspected + 1;
            if self.slot_contains(idx, &value) {
                report.kept = report.kept + 1;
                proof {
                    assert(reg_i.insert(name@, w) =~= register(reg_i, cap, name@, value@));
                }
            } else if self.winners[idx].len() < self.cap {
                proof {
                    assert(self.winners_view(idx as int).len() == self.winners@[idx as int]@.len());
                }
                self.add_winner(idx, value);
                report.kept = report.kept + 1;
                proof {
                    assert(reg_i.insert(name@, w).insert(name@, w.push(pairs0[i as int].1)) =~= register(
                        reg_i,
                        cap,
                        name@,
                        pairs0[i as int].1,
                    ));
                }
            } else {
                proof {
                    assert(self.winners_view(idx as int).len() == self.winners@[idx as int]@.len());
                    assert(reg_i.insert(name@, w) =~= register(reg_i, cap, name@, value@));
                }
                let m = self.overflow_marker.clone();
                attrs.set_value_at(i, m);
                report.overflowed = report.overflowed + 1;
            }
            proof {
                assert(kept_at(reg0, cap, pairs0, i as int) == admits(w, cap, value@));
                assert(kept_at(reg0, cap, pairs0.take(i + 1), i as int) == admits(w, cap, value@));
            }
            i = i + 1;
        }
        proof {
            assert(pairs0.take(n as int) =~= pairs0);
            assert(attrs@ =~= capped_pairs(reg0, cap, marker, pairs0));
        }
        report
    }

    /// Forgets every winner: the registry becomes empty.
    pub fn reset(&mut self)
        requires
            old(self).wf(),
        ensures
            final(self).wf(),
            final(self).spec_cap() == old(self).spec_cap(),
            final(self).spec_marker() == old(self).spec_marker(),
            final(self).registry() == Registry::empty(),
    {
        self.names.clear();
        self.winners.clear();
        assert(self.registry() =~= Registry::empty());
    }

    /// Number of attribute names in the registry.
    pub fn seen_name_count(&self) -> (count: usize)
        requires
            self.wf(),
        ensures
            count == self.registry().dom().len(),
    {
        proof {
            let names = self.names@.map_values(|s: String| s@);
            assert forall|a: int, b: int| 0 <= a < names.len() && 0 <= b < names.len() && a != b implies names[a]
                != names[b] by {
                if a < b {
                    assert(self.names@[a]@ != self.names@[b]@);
                } else {
                    assert(self.names@[b]@ != self.names@[a]@);
                }
            }
            assert(names.no_duplicates());
            names.unique_seq_to_set();
            assert forall|n: Seq<char>| self.registry().dom().contains(n) <==> names.to_set().contains(n) by {
                if self.registry().dom().contains(n) {
                    let c = self.slot_of(n);
                    assert(names[c] == n);
                }
                if names.to_set().contains(n) {
                    let c = choose|c: int| 0 <= c < names.len() && names[c] == n;
                    assert(self.names@[c]@ == n);
                }
            }
            assert(self.registry().dom() =~= names.to_set());
        }
        self.names.len()
    }

    /// Number of winners recorded for `name`.
    pub fn seen_value_count(&self, name: &str) -> (count: usize)
        requires
            self.wf(),
        ensures
            count == winners_of(self.registry(), name@).len(),
    {
        let key = name.to_owned();
        let mut j: usize = 0;
        while j < self.names.len()
            invariant
                j <= self.names@.len(),
                self.wf(),
                key@ == name@,
                forall|k: int| 0 <= k < j ==> self.names@[k]@ != name@,
            decreases self.names.len() - j,
        {
            if self.names[j] == key {
                proof {
                    self.lemma_registry_at(j as int);
                }
                return self.winners[j].len();
            }
            j += 1;
        }
        assert(!self.registry().contains_key(name@));
        0
    }
}

impl Default for CardinalityCap {
    /// The default cap: 100 unique values per name, marker `__other__`.
    fn default() -> (c: Self)
        ensures
            c.wf(),
            c.spec_cap() == DEFAULT_CAP,
            c.spec_marker() == DEFAULT_OVERFLOW_MARKER@,
            c.registry() == Registry::empty(),
    {
        Self::with_default()
    }
}

/// `longer` starts with all of `shorter`, in order.
pub open spec fn extends(longer: Seq<Seq<char>>, shorter: Seq<Seq<char>>) -> bool {
    &&& shorter.len() <= longer.len()
    &&& forall|k: int| 0 <= k < shorter.len() ==> longer[k] == shorter[k]
}

/// Observing pairs never removes, reorders or replaces a winner: the winners
/// of every name after a batch start with its winners before the batch.
pub proof fn law_winners_are_sticky(reg: Registry, cap: nat, pairs: AttrPairs, name: Seq<char>)
    ensures
        extends(winners_of(registry_after(reg, cap, pairs), name), winners_of(reg, name)),
    decreases pairs.len(),
{
    if pairs.len() > 0 {
        law_winners_are_sticky(reg, cap, pairs.drop_last(), name);
    }
}

/// Observing pairs keeps every name at no more than `cap` distinct winners.
pub proof fn law_winners_stay_bounded(reg: Registry, cap: nat, pairs: AttrPairs)
    requires
        bounded(reg, cap),
    ensures
        bounded(registry_after(reg, cap, pairs), cap),
    decreases pairs.len(),
{
    if pairs.len() > 0 {
        law_winners_stay_bounded(reg, cap, pairs.drop_last());
        let r = registry_after(reg, cap, pairs.drop_last());
        let n = pairs.last().0;
        let w = winners_of(r, n);
        let v = pairs.last().1;
        if !(w.contains(v) || w.len() >= cap) {
            assert forall|a: int, b: int| 0 <= a < b < w.push(v).len() implies w.push(v)[a] != w.push(v)[b] by {
                if b == w.len() {
                    assert(w[a] == w.push(v)[a]);
                }
            }
        }
        let r2 = registry_after(reg, cap, pairs);
        assert forall|m: Seq<char>| #[trigger] r2.contains_key(m) implies r2[m].len() <= cap
            && r2[m].no_duplicates() by {
            if m != n {
                assert(r.contains_key(m));
            }
        }
    }
}

/// Names that occur in no pair of the batch keep their winners unchanged:
/// the cap is applied per attribute name.
pub proof fn law_other_names_untouched(reg: Registry, cap: nat, pairs: AttrPairs, name: Seq<char>)
    requires
        forall|i: int| 0 <= i < pairs.len() ==> (#[trigger] pairs[i]).0 != name,
    ensures
        registry_after(reg, cap, pairs).contains_key(name) == reg.contains_key(name),
        winners_of(registry_after(reg, cap, pairs), name) == winners_of(reg, name),
    decreases pairs.len(),
{
    if pairs.len() > 0 {
        assert forall|i: int| 0 <= i < pairs.drop_last().len() implies (#[trigger] pairs.drop_last()[i]).0 != name by {
            assert(pairs.drop_last()[i] == pairs[i]);
        }
        law_other_names_untouched(reg, cap, pairs.drop_last(), name);
        assert(pairs.last() == pairs[pairs.len() - 1]);
    }
}

/// The pairs of a batch that carry `name`, in order.
pub open spec fn pairs_named(pairs: AttrPairs, name: Seq<char>) -> AttrPairs {
    pairs.filter(named(name))
}

/// The predicate "the pair carries `name`".
pub open spec fn named(name: Seq<char>) -> spec_fn((Seq<char>, Seq<char>)) -> bool {
    |p: (Seq<char>, Seq<char>)| p.0 == name
}

/// The cap is per attribute name: the winners of a name after a batch are
/// exactly what the pairs of that name alone would leave.
pub proof fn law_cap_is_per_name(reg: Registry, cap: nat, pairs: AttrPairs, name: Seq<char>)
    ensures
        winners_of(registry_after(reg, cap, pairs), name) == winners_of(
            registry_after(reg, cap, pairs_named(pairs, name)),
            name,
        ),
    decreases pairs.len(),
{
    if pairs.len() > 0 {
        let init = pairs.drop_last();
        let last = pairs.last();
        law_cap_is_per_name(reg, cap, init, name);
        assert(pairs =~= init.push(last));
        init.lemma_filter_push(last, named(name));
        let f = init.push(last).filter(named(name));
        assert(pairs_named(pairs, name) == f);
        if last.0 == name {
            assert(f == init.filter(named(name)).push(last));
            assert(f.drop_last() =~= pairs_named(init, name));
            assert(f.last() == last);
        } else {
            assert(f == pairs_named(init, name));
        }
    }
}

/// A value that is already a winner of its name passes through verbatim,
/// whatever came before it in the batch.
pub proof fn law_seen_value_passes(reg: Registry, cap: nat, marker: Seq<char>, pairs: AttrPairs, i: int)
    requires
        0 <= i < pairs.len(),
        winners_of(reg, pairs[i].0).contains(pairs[i].1),
    ensures
        kept_at(reg, cap, pairs, i),
        capped_pairs(reg, cap, marker, pairs)[i] == pairs[i],
{
    let before = winners_of(registry_after(reg, cap, pairs.take(i)), pairs[i].0);
    law_winners_are_sticky(reg, cap, pairs.take(i), pairs[i].0);
    let k = choose|k: int| 0 <= k < winners_of(reg, pairs[i].0).len() && winners_of(reg, pairs[i].0)[k] == pairs[i].1;
    assert(before[k] == pairs[i].1);
}

proof fn lemma_winners_growth_bound(reg: Registry, cap: nat, pairs: AttrPairs, name: Seq<char>)
    ensures
        winners_of(registry_after(reg, cap, pairs), name).len() <= winners_of(reg, name).len() + pairs.len(),
    decreases pairs.len(),
{
    if pairs.len() > 0 {
        lemma_winners_growth_bound(reg, cap, pairs.drop_last(), name);
    }
}

/// Starting from an empty registry, a batch of at most `cap` pairs passes
/// through unchanged and every pair counts as kept.
pub proof fn law_under_cap_all_kept(cap: nat, marker: Seq<char>, pairs: AttrPairs)
    requires
        pairs.len() <= cap,
    ensures
        capped_pairs(Registry::empty(), cap, marker, pairs) == pairs,
        kept_count(Registry::empty(), cap, pairs) == pairs.len(),
    decreases pairs.len(),
{
    let reg = Registry::empty();
    assert forall|i: int| 0 <= i < pairs.len() implies #[trigger] kept_at(reg, cap, pairs, i) by {
        lemma_winners_growth_bound(reg, cap, pairs.take(i), pairs[i].0);
    }
    assert(capped_pairs(reg, cap, marker, pairs) =~= pairs);
    if pairs.len() > 0 {
        law_under_cap_all_kept(cap, marker, pairs.drop_last());
        assert(kept_at(reg, cap, pairs, pairs.len() - 1));
    }
}

/// Each pair is either kept or replaced by the marker, so the kept count
/// never exceeds the batch size.
pub proof fn law_kept_count_bounded(reg: Registry, cap: nat, pairs: AttrPairs)
    ensures
        kept_count(reg, cap, pairs) <= pairs.len(),
    decreases pairs.len(),
{
    if pairs.len() > 0 {
        law_kept_count_bounded(reg, cap, pairs.drop_last());
    }
}

proof fn lemma_registry_after_concat(reg: Registry, cap: nat, a: AttrPairs, b: AttrPairs)
    ensures
        registry_after(reg, cap, a + b) == registry_after(registry_after(reg, cap, a), cap, b),
    decreases b.len(),
{
    if b.len() == 0 {
        assert(a + b =~= a);
    } else {
        lemma_registry_after_concat(reg, cap, a, b.drop_last());
        assert((a + b).drop_last() =~= a + b.drop_last());
        assert((a + b).last() == b.last());
    }
}

proof fn lemma_names_persist(reg: Registry, cap: nat, pairs: AttrPairs, name: Seq<char>)
    requires
        reg.contains_key(name),
    ensures
        registry_after(reg, cap, pairs).contains_key(name),
    decreases pairs.len(),
{
    if pairs.len() > 0 {
        lemma_names_persist(reg, cap, pairs.drop_last(), name);
    }
}

/// Where pair `i` stands once the whole batch has been observed: its name is
/// registered; a kept value is among the winners; an overflowed value left
/// its name with at least `cap` winners.
proof fn lemma_pair_settled(reg: Registry, cap: nat, pairs: AttrPairs, i: int)
    requires
        0 <= i < pairs.len(),
    ensures
        registry_after(reg, cap, pairs).contains_key(pairs[i].0),
        kept_at(reg, cap, pairs, i) ==> registry_after(reg, cap, pairs)[pairs[i].0].contains(pairs[i].1),
        !kept_at(reg, cap, pairs, i) ==> registry_after(reg, cap, pairs)[pairs[i].0].len() >= cap,
{
    let n = pairs[i].0;
    let v = pairs[i].1;
    let head = pairs.take(i + 1);
    let tail = pairs.skip(i + 1);
    assert(pairs =~= head + tail);
    lemma_registry_after_concat(reg, cap, head, tail);
    assert(head.drop_last() =~= pairs.take(i));
    assert(head.last() == pairs[i]);
    let mid = registry_after(reg, cap, head);
    assert(mid.contains_key(n));
    lemma_names_persist(mid, cap, tail, n);
    law_winners_are_sticky(mid, cap, tail, n);
    let w = winners_of(registry_after(reg, cap, pairs.take(i)), n);
    if kept_at(reg, cap, pairs, i) {
        if w.contains(v) {
            let k = choose|k: int| 0 <= k < w.len() && w[k] == v;
            assert(winners_of(mid, n)[k] == v);
            assert(registry_after(reg, cap, pairs)[n][k] == v);
        } else {
            assert(winners_of(mid, n) == w.push(v));
            assert(winners_of(mid, n)[w.len() as int] == v);
            assert(registry_after(reg, cap, pairs)[n][w.len() as int] == v);
        }
    }
}

proof fn lemma_second_pass_prefix(reg: Registry, cap: nat, marker: Seq<char>, pairs: AttrPairs, k: int)
    requires
        0 <= k <= pairs.len(),
    ensures
        registry_after(registry_after(reg, cap, pairs), cap, capped_pairs(reg, cap, marker, pairs).take(k))
            == registry_after(reg, cap, pairs),
    decreases k,
{
    let r1 = registry_after(reg, cap, pairs);
    let out = capped_pairs(reg, cap, marker, pairs);
    if k == 0 {
        assert(out.take(0) =~= AttrPairs::empty());
    } else {
        lemma_second_pass_prefix(reg, cap, marker, pairs, k - 1);
        let i = k - 1;
        assert(out.take(k).drop_last() =~= out.take(i));
        assert(out.take(k).last() == out[i]);
        lemma_pair_settled(reg, cap, pairs, i);
        let n = pairs[i].0;
        assert(register(r1, cap, n, out[i].1) =~= r1);
    }
}

/// Applying the cap a second time to its own output changes nothing: the
/// registry stays as it is and every value passes through unchanged.
pub proof fn law_capping_is_idempotent(reg: Registry, cap: nat, marker: Seq<char>, pairs: AttrPairs)
    ensures
        registry_after(registry_after(reg, cap, pairs), cap, capped_pairs(reg, cap, marker, pairs))
            == registry_after(reg, cap, pairs),
        capped_pairs(registry_after(reg, cap, pairs), cap, marker, capped_pairs(reg, cap, marker, pairs))
            == capped_pairs(reg, cap, marker, pairs),
{
    let r1 = registry_after(reg, cap, pairs);
    let out = capped_pairs(reg, cap, marker, pairs);
    lemma_second_pass_prefix(reg, cap, marker, pairs, pairs.len() as int);
    assert(out.take(out.len() as int) =~= out);
    assert forall|i: int| 0 <= i < out.len() implies #[trigger] capped_pairs(r1, cap, marker, out)[i] == out[i] by {
        lemma_second_pass_prefix(reg, cap, marker, pairs, i);
        lemma_pair_settled(reg, cap, pairs, i);
    }
    assert(capped_pairs(r1, cap, marker, out) =~= out);
}

} // verus!
