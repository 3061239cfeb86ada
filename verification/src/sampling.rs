//! Sampling decisions for distributed tracing.
//!
//! - [`ParentBasedSampler`] records a span when it or any ancestor carries
//!   the W3C sampled bit.
//! - [`AlwaysSampler`] / [`NeverSampler`] are the constant decisions.
//! - [`TailSampler`] records every span of a trace once an observed outcome of
//!   that trace matched one of its [`TailSamplingRule`]s.
//! - [`OutcomeWindow`] is the sliding window of outcomes and the single-shot
//!   arming flag behind an error-rate tail sampler.
//! - [`splitmix64_hash`] is the stable trace-id hash behind ratio-based
//!   sampling.

use vstd::prelude::*;
use vstd::arithmetic::div_mod::{lemma_mul_mod_noop_left, lemma_mul_mod_noop_right, lemma_small_mod};
use vstd::arithmetic::mul::lemma_mul_is_associative;
use crate::attributes::SpanAttributes;

verus! {

// ---------------------------------------------------------------------------
// SpanContext
// ---------------------------------------------------------------------------

/// Bit 0 of the W3C trace flags, the "sampled" bit, is set.
pub open spec fn sampled_bit(flags: u8) -> bool {
    flags & 1u8 == 1u8
}

/// Minimal span context consulted by samplers.
#[derive(Debug, PartialEq, Eq, Hash)]
pub struct SpanContext {
    /// Trace identifier.
    pub trace_id: String,
    /// Span identifier.
    pub span_id: String,
    /// W3C trace-flags byte; bit 0 is the "sampled" bit.
    pub trace_flags: u8,
    /// Parent context, when this span is a child of an upstream trace.
    pub parent: Option<Box<SpanContext>>,
}

impl Clone for SpanContext {
    /// A deep copy of the context and its ancestors.
    fn clone(&self) -> (c: Self)
        ensures
            c == *self,
        decreases self,
    {
        let parent = match &self.parent {
            Some(p) => Some(Box::new((**p).clone())),
            None => None,
        };
        SpanContext {
            trace_id: self.trace_id.clone(),
            span_id: self.span_id.clone(),
            trace_flags: self.trace_flags,
            parent,
        }
    }
}

/// The context or one of its ancestors carries the sampled bit.
pub open spec fn lineage_sampled(ctx: SpanContext) -> bool
    decreases ctx,
{
    sampled_bit(ctx.trace_flags) || match ctx.parent {
        Some(p) => lineage_sampled(*p),
        None => false,
    }
}

/// The root context that [`SpanContext::root`] builds.
pub open spec fn root_context(trace_id: Seq<char>, span_id: Seq<char>, sampled: bool) -> (Seq<char>, Seq<char>, u8) {
    (trace_id, span_id, if sampled { 1u8 } else { 0u8 })
}

impl SpanContext {
    /// True if the sampled bit is set on this context or on any ancestor.
    pub fn is_sampled(&self) -> (b: bool)
        ensures
            b == lineage_sampled(*self),
        decreases self,
    {
        if self.trace_flags & 0x01 == 0x01 {
            return true;
        }
        match &self.parent {
            Some(p) => p.is_sampled(),
            None => false,
        }
    }

    /// A root (parentless) context; `sampled` sets the sampled bit.
    pub fn root(trace_id: &str, span_id: &str, sampled: bool) -> (c: Self)
        ensures
            (c.trace_id@, c.span_id@, c.trace_flags) == root_context(trace_id@, span_id@, sampled),
            c.parent is None,
    {
        SpanContext {
            trace_id: trace_id.to_owned(),
            span_id: span_id.to_owned(),
            trace_flags: if sampled { 0x01 } else { 0x00 },
            parent: None,
        }
    }

    /// This context with `parent` attached as its parent.
    pub fn with_parent(self, parent: SpanContext) -> (c: Self)
        ensures
            c.trace_id == self.trace_id,
            c.span_id == self.span_id,
            c.trace_flags == self.trace_flags,
            c.parent == Some(Box::new(parent)),
    {
        let mut c = self;
        c.parent = Some(Box::new(parent));
        c
    }
}

/// A root context is sampled exactly when it was built as sampled.
pub proof fn law_root_sampled(trace_id: String, span_id: String, sampled: bool)
    ensures
        lineage_sampled(
            SpanContext {
                trace_id,
                span_id,
                trace_flags: if sampled { 1u8 } else { 0u8 },
                parent: None,
            },
        ) == sampled,
{
    assert(1u8 & 1u8 == 1u8) by (bit_vector);
    assert(0u8 & 1u8 == 0u8) by (bit_vector);
}

/// A child is sampled when its own bit is set or its parent's lineage is
/// sampled; attaching a sampled parent makes every descendant sampled.
pub proof fn law_child_inherits_parent(child: SpanContext, parent: SpanContext)
    ensures
        lineage_sampled(
            SpanContext { parent: Some(Box::new(parent)), ..child },
        ) == (sampled_bit(child.trace_flags) || lineage_sampled(parent)),
{
}

// ---------------------------------------------------------------------------
// SamplingDecision and the Sampler port
// ---------------------------------------------------------------------------

/// Decision returned by a sampler.
#[derive(Debug, Clone, Copy, PartialEq, Eq, Structural)]
pub enum SamplingDecision {
    /// Keep the span: record it and forward it to exporters.
    Record,
    /// Discard the span at the source.
    Drop,
}

/// `Record` when `b` holds, `Drop` otherwise.
pub open spec fn decision_of(b: bool) -> SamplingDecision {
    if b {
        SamplingDecision::Record
    } else {
        SamplingDecision::Drop
    }
}

impl SamplingDecision {
    /// True if the decision is `Record`.
    pub fn is_record(self) -> (b: bool)
        ensures
            b == (self == SamplingDecision::Record),
    {
        match self {
            SamplingDecision::Record => true,
            SamplingDecision::Drop => false,
        }
    }
}

/// Port trait for sampling strategies.
///
/// `should_sample` decides per span; `observe` informs a sampler of a span's
/// outcome (a no-op for head-based samplers); `should_sample_with_attrs`
/// decides from a trace id, span name and attributes, by default through a
/// parentless, unsampled context named `"span"`.
pub trait Sampler: Send + Sync {
    /// The decisions this sampler may return for `ctx` in its current state.
    /// By default any decision is allowed (a sampler whose decision rests on
    /// time or chance); the samplers of this crate state theirs exactly.
    open spec fn allows(&self, ctx: SpanContext, d: SamplingDecision) -> bool {
        true
    }

    /// Stable, human-readable name.
    fn name(&self) -> &str;

    /// Decide whether a single span should be recorded.
    fn should_sample(&self, ctx: &SpanContext) -> (d: SamplingDecision)
        ensures
            self.allows(*ctx, d),
    ;

    /// Inform the sampler of a span's eventual outcome.
    fn observe(&mut self, ctx: &SpanContext, was_error: bool) {
    }

    /// Decide from the raw `(trace_id, name, attrs)` form: the decision is
    /// one this sampler allows for the parentless, unsampled context of
    /// `trace_id` whose span id is `"span"`; `name` and `attrs` play no part.
    /// Every sampler, overriding or not, is held to this.
    fn should_sample_with_attrs(&self, trace_id: &str, name: &str, attrs: &SpanAttributes) -> (d: SamplingDecision)
        ensures
            exists|ctx: SpanContext| #[trigger] is_root_context(ctx, trace_id@, "span"@, false) && self.allows(ctx, d),
    {
        let ctx = SpanContext::root(trace_id, "span", false);
        let d = self.should_sample(&ctx);
        assert(is_root_context(ctx, trace_id@, "span"@, false));
        d
    }
}

/// `ctx` is the parentless context [`SpanContext::root`] builds from these
/// arguments.
pub open spec fn is_root_context(ctx: SpanContext, trace_id: Seq<char>, span_id: Seq<char>, sampled: bool) -> bool {
    &&& ctx.trace_id@ == trace_id
    &&& ctx.span_id@ == span_id
    &&& ctx.trace_flags == if sampled { 1u8 } else { 0u8 }
    &&& ctx.parent is None
}

/// Sampler that records every span.
#[derive(Debug, Default, Clone, Copy)]
pub struct AlwaysSampler;

impl Sampler for AlwaysSampler {
    open spec fn allows(&self, ctx: SpanContext, d: SamplingDecision) -> bool {
        d == SamplingDecision::Record
    }

    fn name(&self) -> (n: &str)
        ensures
            n@ == "always"@,
    {
        "always"
    }

    fn should_sample(&self, ctx: &SpanContext) -> (d: SamplingDecision)
        ensures
            d == SamplingDecision::Record,
    {
        SamplingDecision::Record
    }

    fn should_sample_with_attrs(&self, trace_id: &str, name: &str, attrs: &SpanAttributes) -> (d: SamplingDecision)
        ensures
            d == SamplingDecision::Record,
    {
        let ctx = SpanContext::root(trace_id, "span", false);
        let d = self.should_sample(&ctx);
        assert(is_root_context(ctx, trace_id@, "span"@, false));
        d
    }
}

/// Sampler that drops every span.
#[derive(Debug, Default, Clone, Copy)]
pub struct NeverSampler;

impl Sampler for NeverSampler {
    open spec fn allows(&self, ctx: SpanContext, d: SamplingDecision) -> bool {
        d == SamplingDecision::Drop
    }

    fn name(&self) -> (n: &str)
        ensures
            n@ == "never"@,
    {
        "never"
    }

    fn should_sample(&self, ctx: &SpanContext) -> (d: SamplingDecision)
        ensures
            d == SamplingDecision::Drop,
    {
        SamplingDecision::Drop
    }

    fn should_sample_with_attrs(&self, trace_id: &str, name: &str, attrs: &SpanAttributes) -> (d: SamplingDecision)
        ensures
            d == SamplingDecision::Drop,
    {
        let ctx = SpanContext::root(trace_id, "span", false);
        let d = self.should_sample(&ctx);
        assert(is_root_context(ctx, trace_id@, "span"@, false));
        d
    }
}

/// Sampler that honors the upstream decision: record when the span or any
/// ancestor carries the sampled bit.
#[derive(Debug, Default, Clone, Copy)]
pub struct ParentBasedSampler;

impl ParentBasedSampler {
    /// A parent-based sampler.
    pub fn new() -> (s: Self) {
        ParentBasedSampler
    }
}

impl Sampler for ParentBasedSampler {
    open spec fn allows(&self, ctx: SpanContext, d: SamplingDecision) -> bool {
        d == decision_of(lineage_sampled(ctx))
    }

    fn name(&self) -> (n: &str)
        ensures
            n@ == "parent-based"@,
    {
        "parent-based"
    }

    fn should_sample(&self, ctx: &SpanContext) -> (d: SamplingDecision)
        ensures
            d == decision_of(lineage_sampled(*ctx)),
    {
        if ctx.is_sampled() {
            SamplingDecision::Record
        } else {
            SamplingDecision::Drop
        }
    }

    /// The context built from a bare trace id is parentless and unsampled,
    /// so the decision is always `Drop`.
    fn should_sample_with_attrs(&self, trace_id: &str, name: &str, attrs: &SpanAttributes) -> (d: SamplingDecision)
        ensures
            d == SamplingDecision::Drop,
    {
        let ctx = SpanContext::root(trace_id, "span", false);
        proof {
            assert(0u8 & 1u8 == 0u8) by (bit_vector);
        }
        let d = self.should_sample(&ctx);
        assert(is_root_context(ctx, trace_id@, "span"@, false));
        d
    }
}

// ---------------------------------------------------------------------------
// Rule-list tail sampling
// ---------------------------------------------------------------------------

/// A tail-sampling rule: a predicate over `(name, was_error, duration_ms)`.
///
/// `name`: when `Some`, only spans with exactly this name match.
/// `error_only`: when `true`, only error spans match.
/// `min_duration_ms`: when `Some`, only spans with a known duration at least
/// this long match.
#[derive(Debug, Clone, PartialEq)]
pub struct TailSamplingRule {
    /// Span name to match exactly; `None` matches any name.
    pub name: Option<String>,
    /// If `true`, only error spans match.
    pub error_only: bool,
    /// Minimum span duration in milliseconds; `None` ignores duration.
    pub min_duration_ms: Option<u64>,
}

/// Whether `rule` matches the outcome `(name, was_error, duration_ms)`: every
/// field the rule specifies must be satisfied.
pub open spec fn rule_matches(rule: TailSamplingRule, name: Seq<char>, was_error: bool, duration_ms: Option<u64>) -> bool {
    &&& (rule.name matches Some(n) ==> n@ == name)
    &&& (rule.error_only ==> was_error)
    &&& (rule.min_duration_ms matches Some(m) ==> (duration_ms matches Some(d) && d >= m))
}

/// Some rule of the list matches the outcome.
pub open spec fn any_rule_matches(rules: Seq<TailSamplingRule>, name: Seq<char>, was_error: bool, duration_ms: Option<u64>) -> bool {
    exists|i: int| 0 <= i < rules.len() && rule_matches(#[trigger] rules[i], name, was_error, duration_ms)
}

impl Default for TailSamplingRule {
    /// The rule that matches every outcome.
    fn default() -> (r: Self)
        ensures
            r.name is None,
            !r.error_only,
            r.min_duration_ms is None,
    {
        TailSamplingRule { name: None, error_only: false, min_duration_ms: None }
    }
}

impl TailSamplingRule {
    /// The rule that matches any error span.
    pub fn errors() -> (r: Self)
        ensures
            r.name is None,
            r.error_only,
            r.min_duration_ms is None,
    {
        TailSamplingRule { name: None, error_only: true, min_duration_ms: None }
    }

    /// The rule that matches spans lasting at least `min_duration_ms`.
    pub fn slow(min_duration_ms: u64) -> (r: Self)
        ensures
            r.name is None,
            !r.error_only,
            r.min_duration_ms == Some(min_duration_ms),
    {
        TailSamplingRule { name: None, error_only: false, min_duration_ms: Some(min_duration_ms) }
    }

    /// The rule that matches spans with exactly this name.
    pub fn named(name: &str) -> (r: Self)
        ensures
            r.name matches Some(n) && n@ == name@,
            !r.error_only,
            r.min_duration_ms is None,
    {
        TailSamplingRule { name: Some(name.to_owned()), error_only: false, min_duration_ms: None }
    }

    /// Evaluates the rule against a span outcome.
    pub fn matches(&self, name: &str, was_error: bool, duration_ms: Option<u64>) -> (m: bool)
        ensures
            m == rule_matches(*self, name@, was_error, duration_ms),
            m && self.name is Some ==> name@ == self.name.unwrap()@,
            m && self.error_only ==> was_error,
            self.name is None && !self.error_only && self.min_duration_ms is Some ==> m == (duration_ms is Some
                && duration_ms.unwrap() >= self.min_duration_ms.unwrap()),
    {
        match &self.name {
            Some(expected) => {
                let given = name.to_owned();
                if !(*expected == given) {
                    return false;
                }
            },
            None => {},
        }
        if self.error_only && !was_error {
            return false;
        }
        match self.min_duration_ms {
            Some(min) => match duration_ms {
                Some(d) => d >= min,
                None => false,
            },
            None => true,
        }
    }
}

/// Tail sampler that records every span of a trace once an outcome of that
/// trace matched one of its rules.
///
/// The marked trace ids are kept in a vector, each once, and searched
/// linearly rather than in a hash set: with `String` keys the contracts of
/// the standard hash collections cannot be relied on to prove anything about
/// membership. A decision therefore costs O(number of marked traces);
/// [`TailSampler::reset`] bounds it.
#[derive(Debug)]
pub struct TailSampler {
    rules: Vec<TailSamplingRule>,
    /// Marked trace ids, each once, in the order they were marked.
    marked: Vec<String>,
}

/// The marked ids after an outcome of trace `t`: `t` is added when a rule
/// matches and it is not marked yet.
pub open spec fn mark_if(marked: Seq<Seq<char>>, matched: bool, t: Seq<char>) -> Seq<Seq<char>> {
    if matched && !marked.contains(t) {
        marked.push(t)
    } else {
        marked
    }
}

impl TailSampler {
    /// The configured rules, in order.
    pub closed spec fn rule_list(&self) -> Seq<TailSamplingRule> {
        self.rules@
    }

    /// The marked trace ids, in the order they were marked.
    pub closed spec fn marked_ids(&self) -> Seq<Seq<char>> {
        self.marked@.map_values(|s: String| s@)
    }

    /// A trace id is marked at most once.
    pub open spec fn wf(&self) -> bool {
        self.marked_ids().no_duplicates()
    }

    /// A tail sampler with the given rules and no marked trace.
    pub fn new(rules: Vec<TailSamplingRule>) -> (s: Self)
        ensures
            s.wf(),
            s.rule_list() == rules@,
            s.marked_ids() == Seq::<Seq<char>>::empty(),
    {
        let s = TailSampler { rules, marked: Vec::new() };
        assert(s.marked_ids() =~= Seq::<Seq<char>>::empty());
        s
    }

    /// The configured rules.
    pub fn rules(&self) -> (r: &[TailSamplingRule])
        ensures
            r@ == self.rule_list(),
    {
        self.rules.as_slice()
    }

    /// Whether `trace_id` is marked.
    fn is_marked(&self, trace_id: &str) -> (b: bool)
        ensures
            b == self.marked_ids().contains(trace_id@),
    {
        let key = trace_id.to_owned();
        let mut k: usize = 0;
        while k < self.marked.len()
            invariant
                k <= self.marked@.len(),
                key@ == trace_id@,
                forall|m: int| 0 <= m < k ==> self.marked@[m]@ != trace_id@,
            decreases self.marked.len() - k,
        {
            if self.marked[k] == key {
                assert(self.marked_ids()[k as int] == trace_id@);
                return true;
            }
            k += 1;
        }
        proof {
            if self.marked_ids().contains(trace_id@) {
                let m = choose|m: int| 0 <= m < self.marked_ids().len() && self.marked_ids()[m] == trace_id@;
                assert(self.marked@[m]@ == trace_id@);
            }
        }
        false
    }

    /// Observes a span outcome: when any rule matches `(name, was_error,
    /// duration_ms)`, `trace_id` is marked for recording.
    pub fn observe_outcome(&mut self, trace_id: &str, name: &str, was_error: bool, duration_ms: Option<u64>)
        ensures
            old(self).wf() ==> final(self).wf(),
            final(self).rule_list() == old(self).rule_list(),
            final(self).marked_ids() == mark_if(
                old(self).marked_ids(),
                any_rule_matches(old(self).rule_list(), name@, was_error, duration_ms),
                trace_id@,
            ),
    {
        let mut i: usize = 0;
        while i < self.rules.len()
            invariant
                i <= self.rules@.len(),
                *self == *old(self),
                forall|j: int| 0 <= j < i ==> !rule_matches(#[trigger] self.rules@[j], name@, was_error, duration_ms),
            decreases self.rules.len() - i,
        {
            if self.rules[i].matches(name, was_error, duration_ms) {
                if !self.is_marked(trace_id) {
                    let ghost before = self.marked_ids();
                    self.marked.push(trace_id.to_owned());
                    assert(self.marked_ids() =~= before.push(trace_id@));
                    proof {
                        if before.no_duplicates() {
                            assert forall|a: int, b: int|
                                0 <= a < b < self.marked_ids().len() implies self.marked_ids()[a] != self.marked_ids()[b] by {
                                if b == before.len() {
                                    assert(before[a] == self.marked_ids()[a]);
                                }
                            }
                        }
                    }
                }
                return;
            }
            i += 1;
        }
    }

    /// Discards every marked trace id.
    pub fn reset(&mut self)
        ensures
            final(self).wf(),
            final(self).rule_list() == old(self).rule_list(),
            final(self).marked_ids() == Seq::<Seq<char>>::empty(),
    {
        self.marked.clear();
        assert(self.marked_ids() =~= Seq::<Seq<char>>::empty());
    }

    /// Number of marked trace ids.
    pub fn marked_count(&self) -> (n: usize)
        ensures
            n == self.marked_ids().len(),
    {
        self.marked.len()
    }
}

impl Sampler for TailSampler {
    open spec fn allows(&self, ctx: SpanContext, d: SamplingDecision) -> bool {
        d == decision_of(self.marked_ids().contains(ctx.trace_id@))
    }

    fn name(&self) -> (n: &str)
        ensures
            n@ == "tail-rule"@,
    {
        "tail-rule"
    }

    /// `Record` for every span of a marked trace, `Drop` otherwise.
    fn should_sample(&self, ctx: &SpanContext) -> (d: SamplingDecision)
        ensures
            d == decision_of(self.marked_ids().contains(ctx.trace_id@)),
    {
        if self.is_marked(ctx.trace_id.as_str()) {
            SamplingDecision::Record
        } else {
            SamplingDecision::Drop
        }
    }

    /// Observes an outcome that carries only the error flag: the name is
    /// empty and the duration unknown.
    fn observe(&mut self, ctx: &SpanContext, was_error: bool)
        ensures
            old(self).wf() ==> final(self).wf(),
            final(self).rule_list() == old(self).rule_list(),
            final(self).marked_ids() == mark_if(
                old(self).marked_ids(),
                any_rule_matches(old(self).rule_list(), Seq::<char>::empty(), was_error, None),
                ctx.trace_id@,
            ),
    {
        proof {
            reveal_strlit("");
            assert(""@ =~= Seq::<char>::empty());
        }
        self.observe_outcome(ctx.trace_id.as_str(), "", was_error, None);
    }

    fn should_sample_with_attrs(&self, trace_id: &str, name: &str, attrs: &SpanAttributes) -> (d: SamplingDecision)
        ensures
            d == decision_of(self.marked_ids().contains(trace_id@)),
    {
        let ctx = SpanContext::root(trace_id, "span", false);
        let d = self.should_sample(&ctx);
        assert(is_root_context(ctx, trace_id@, "span"@, false));
        d
    }
}

/// Once an outcome of a trace matched a rule, the trace is marked, and every
/// later span of that trace is recorded until the sampler is reset.
pub proof fn law_marked_trace_recorded(
    marked: Seq<Seq<char>>,
    rules: Seq<TailSamplingRule>,
    trace_id: Seq<char>,
    name: Seq<char>,
    was_error: bool,
    duration_ms: Option<u64>,
)
    requires
        any_rule_matches(rules, name, was_error, duration_ms),
    ensures
        decision_of(
            mark_if(marked, any_rule_matches(rules, name, was_error, duration_ms), trace_id).contains(trace_id),
        ) == SamplingDecision::Record,
{
    if !marked.contains(trace_id) {
        assert(marked.push(trace_id)[marked.len() as int] == trace_id);
    }
}

/// An outcome that matches no rule marks nothing.
pub proof fn law_unmatched_outcome_marks_nothing(
    marked: Seq<Seq<char>>,
    rules: Seq<TailSamplingRule>,
    trace_id: Seq<char>,
    name: Seq<char>,
    was_error: bool,
    duration_ms: Option<u64>,
)
    requires
        !any_rule_matches(rules, name, was_error, duration_ms),
    ensures
        mark_if(marked, any_rule_matches(rules, name, was_error, duration_ms), trace_id) == marked,
{
}

/// Marks only accumulate: observing an outcome never unmarks a trace.
pub proof fn law_marks_accumulate(marked: Seq<Seq<char>>, matched: bool, trace_id: Seq<char>, other: Seq<char>)
    requires
        marked.contains(other),
    ensures
        mark_if(marked, matched, trace_id).contains(other),
{
    let k = choose|k: int| 0 <= k < marked.len() && marked[k] == other;
    assert(mark_if(marked, matched, trace_id)[k] == other);
}

/// Rules compose by logical OR: a rule list matches exactly when one of its
/// rules does, so adding a rule can only mark more traces.
pub proof fn law_rules_compose_by_or(rules: Seq<TailSamplingRule>, extra: TailSamplingRule, name: Seq<char>, was_error: bool, duration_ms: Option<u64>)
    ensures
        any_rule_matches(rules.push(extra), name, was_error, duration_ms)
            == (any_rule_matches(rules, name, was_error, duration_ms) || rule_matches(extra, name, was_error, duration_ms)),
{
    let all = rules.push(extra);
    if any_rule_matches(rules, name, was_error, duration_ms) {
        let i = choose|i: int| 0 <= i < rules.len() && rule_matches(#[trigger] rules[i], name, was_error, duration_ms);
        assert(all[i] == rules[i]);
    }
    if rule_matches(extra, name, was_error, duration_ms) {
        assert(all[rules.len() as int] == extra);
    }
    if any_rule_matches(all, name, was_error, duration_ms) {
        let i = choose|i: int| 0 <= i < all.len() && rule_matches(#[trigger] all[i], name, was_error, duration_ms);
        if i < rules.len() {
            assert(all[i] == rules[i]);
        }
    }
}

/// The error flag of an outcome matters only to an errors-only rule: a rule
/// that is not errors-only matches a failed outcome exactly when it matches
/// the same outcome without the failure.
pub proof fn law_error_flag_ignored_unless_error_only(
    rule: TailSamplingRule,
    name: Seq<char>,
    duration_ms: Option<u64>,
)
    requires
        !rule.error_only,
    ensures
        rule_matches(rule, name, true, duration_ms) == rule_matches(rule, name, false, duration_ms),
{
}

/// An errors-only rule never matches a successful outcome; one that sets
/// nothing else matches every failed outcome.
pub proof fn law_error_only_rule(rule: TailSamplingRule, name: Seq<char>, duration_ms: Option<u64>)
    requires
        rule.error_only,
    ensures
        !rule_matches(rule, name, false, duration_ms),
        rule.name is None && rule.min_duration_ms is None ==> rule_matches(rule, name, true, duration_ms),
{
}

/// A rule that sets only a minimum duration matches exactly the outcomes
/// whose duration is known and reaches it, whatever their name and error
/// flag.
pub proof fn law_duration_threshold(
    rule: TailSamplingRule,
    name: Seq<char>,
    was_error: bool,
    duration_ms: Option<u64>,
)
    requires
        rule.name is None,
        !rule.error_only,
        rule.min_duration_ms is Some,
    ensures
        rule_matches(rule, name, was_error, duration_ms) == (duration_ms is Some && duration_ms.unwrap()
            >= rule.min_duration_ms.unwrap()),
{
}

/// A longer span still matches: if a rule matches an outcome, it matches the
/// same outcome with any longer known duration.
pub proof fn law_longer_duration_still_matches(
    rule: TailSamplingRule,
    name: Seq<char>,
    was_error: bool,
    d: u64,
    longer: u64,
)
    requires
        d <= longer,
        rule_matches(rule, name, was_error, Some(d)),
    ensures
        rule_matches(rule, name, was_error, Some(longer)),
{
}

/// A named rule matches only spans with exactly its name (a rule named `a`
/// never matches `ab`, nor `ab` one named `a`); one that sets nothing else
/// matches every span with that name.
pub proof fn law_named_rule_matches_exact_name(
    rule: TailSamplingRule,
    name: Seq<char>,
    was_error: bool,
    duration_ms: Option<u64>,
)
    requires
        rule.name is Some,
    ensures
        rule_matches(rule, name, was_error, duration_ms) ==> name == rule.name.unwrap()@,
        name != rule.name.unwrap()@ ==> !rule_matches(rule, name, was_error, duration_ms),
        !rule.error_only && rule.min_duration_ms is None ==> rule_matches(
            rule,
            rule.name.unwrap()@,
            was_error,
            duration_ms,
        ),
{
}

/// A rule that sets no criterion matches every outcome.
pub proof fn law_empty_rule_matches_all(name: Seq<char>, was_error: bool, duration_ms: Option<u64>)
    ensures
        rule_matches(
            (TailSamplingRule { name: None, error_only: false, min_duration_ms: None }),
            name,
            was_error,
            duration_ms,
        ),
{
}

/// The criteria of a rule are ANDed: a rule matches an outcome exactly when
/// each of its criteria, taken as a rule of its own, matches it.
pub proof fn law_rule_criteria_are_anded(
    rule: TailSamplingRule,
    name: Seq<char>,
    was_error: bool,
    duration_ms: Option<u64>,
)
    ensures
        rule_matches(rule, name, was_error, duration_ms) == {
            &&& rule_matches(
                (TailSamplingRule { name: rule.name, error_only: false, min_duration_ms: None }),
                name,
                was_error,
                duration_ms,
            )
            &&& rule_matches(
                (TailSamplingRule { name: None, error_only: rule.error_only, min_duration_ms: None }),
                name,
                was_error,
                duration_ms,
            )
            &&& rule_matches(
                (TailSamplingRule { name: None, error_only: false, min_duration_ms: rule.min_duration_ms }),
                name,
                was_error,
                duration_ms,
            )
        },
{
}

/// After a reset no trace is marked, so every span is dropped until a rule
/// matches again.
pub proof fn law_reset_drops_every_trace(trace_id: Seq<char>)
    ensures
        decision_of(Seq::<Seq<char>>::empty().contains(trace_id)) == SamplingDecision::Drop,
{
}

// ---------------------------------------------------------------------------
// Sliding outcome window for error-rate tail sampling
// ---------------------------------------------------------------------------

/// The window after one outcome: the oldest outcome is evicted when the
/// window is full, then the new outcome is appended.
pub open spec fn slide(window: Seq<bool>, capacity: nat, was_error: bool) -> Seq<bool> {
    if window.len() >= capacity {
        window.drop_first().push(was_error)
    } else {
        window.push(was_error)
    }
}

/// Number of error outcomes in a window.
pub open spec fn error_count(window: Seq<bool>) -> nat
    decreases window.len(),
{
    if window.len() == 0 {
        0
    } else {
        error_count(window.drop_last()) + if window.last() {
            1nat
        } else {
            0nat
        }
    }
}

/// One call of the single-shot arming flag: the decision, and the flag after.
pub open spec fn take_armed_step(armed: bool) -> (SamplingDecision, bool) {
    (decision_of(armed), false)
}

/// Sliding window of the most recent span outcomes (`true` = error) and the
/// single-shot "armed" flag of an error-rate tail sampler.
#[derive(Debug)]
pub struct OutcomeWindow {
    capacity: usize,
    outcomes: Vec<bool>,
    armed: bool,
}

impl OutcomeWindow {
    /// Maximum number of outcomes kept.
    pub closed spec fn spec_capacity(&self) -> nat {
        self.capacity as nat
    }

    /// The outcomes, oldest first.
    pub closed spec fn outcomes(&self) -> Seq<bool> {
        self.outcomes@
    }

    /// Whether the next decision records.
    pub closed spec fn spec_armed(&self) -> bool {
        self.armed
    }

    /// The capacity is positive and never exceeded.
    pub open spec fn wf(&self) -> bool {
        &&& self.spec_capacity() > 0
        &&& self.outcomes().len() <= self.spec_capacity()
    }

    /// An empty, unarmed window of the given capacity.
    pub fn new(capacity: usize) -> (w: Self)
        requires
            capacity > 0,
        ensures
            w.wf(),
            w.spec_capacity() == capacity,
            w.outcomes() == Seq::<bool>::empty(),
            !w.spec_armed(),
    {
        OutcomeWindow { capacity, outcomes: Vec::new(), armed: false }
    }

    /// The capacity.
    pub fn capacity(&self) -> (n: usize)
        ensures
            n == self.spec_capacity(),
    {
        self.capacity
    }

    /// Number of outcomes in the window.
    pub fn len(&self) -> (n: usize)
        ensures
            n == self.outcomes().len(),
    {
        self.outcomes.len()
    }

    /// Pushes an outcome, evicting the oldest one when the window is full.
    pub fn record(&mut self, was_error: bool)
        requires
            old(self).wf(),
        ensures
            final(self).wf(),
            final(self).spec_capacity() == old(self).spec_capacity(),
            final(self).spec_armed() == old(self).spec_armed(),
            final(self).outcomes() == slide(old(self).outcomes(), old(self).spec_capacity(), was_error),
    {
        if self.outcomes.len() >= self.capacity {
            self.outcomes.remove(0);
            assert(self.outcomes@ =~= old(self).outcomes@.drop_first());
        }
        self.outcomes.push(was_error);
    }

    /// Number of error outcomes in the window.
    pub fn error_count(&self) -> (n: usize)
        ensures
            n == error_count(self.outcomes()),
            n == self.outcomes().filter(|e: bool| e).len(),
    {
        proof {
            law_error_count_counts_errors(self.outcomes@, false);
        }
        let mut n: usize = 0;
        let mut i: usize = 0;
        while i < self.outcomes.len()
            invariant
                i <= self.outcomes@.len(),
                n == error_count(self.outcomes@.take(i as int)),
                n <= i,
            decreases self.outcomes.len() - i,
        {
            assert(self.outcomes@.take(i + 1).drop_last() =~= self.outcomes@.take(i as int));
            if self.outcomes[i] {
                n = n + 1;
            }
            i = i + 1;
        }
        assert(self.outcomes@.take(self.outcomes@.len() as int) =~= self.outcomes@);
        n
    }

    /// Arms the window: the next decision records.
    pub fn arm(&mut self)
        ensures
            final(self).spec_armed(),
            final(self).outcomes() == old(self).outcomes(),
            final(self).spec_capacity() == old(self).spec_capacity(),
    {
        self.armed = true;
    }

    /// Whether the window is armed.
    pub fn is_armed(&self) -> (b: bool)
        ensures
            b == self.spec_armed(),
    {
        self.armed
    }

    /// Single-shot decision: `Record` once if armed (disarming), `Drop`
    /// otherwise.
    pub fn take_armed(&mut self) -> (d: SamplingDecision)
        ensures
            (d, final(self).spec_armed()) == take_armed_step(old(self).spec_armed()),
            final(self).outcomes() == old(self).outcomes(),
            final(self).spec_capacity() == old(self).spec_capacity(),
    {
        if self.armed {
            self.armed = false;
            SamplingDecision::Record
        } else {
            SamplingDecision::Drop
        }
    }
}

/// The window keeps exactly the most recent outcomes: after an outcome is
/// recorded, it is the newest one, the window holds at most `capacity`
/// outcomes, and the older ones kept are the most recent earlier ones.
pub proof fn law_window_keeps_latest(window: Seq<bool>, capacity: nat, was_error: bool)
    requires
        0 < capacity,
        window.len() <= capacity,
    ensures
        slide(window, capacity, was_error).last() == was_error,
        slide(window, capacity, was_error).len() == if window.len() < capacity {
            window.len() + 1
        } else {
            capacity
        },
        slide(window, capacity, was_error) == window.push(was_error).skip(
            window.push(was_error).len() - slide(window, capacity, was_error).len(),
        ),
{
    let pushed = window.push(was_error);
    if window.len() >= capacity {
        assert(slide(window, capacity, was_error) =~= pushed.skip(1));
    } else {
        assert(slide(window, capacity, was_error) =~= pushed.skip(0));
    }
}

/// The arming flag is single-shot: right after an armed decision records,
/// the next decision drops unless the window is armed again.
pub proof fn law_armed_flag_single_shot(armed: bool)
    ensures
        take_armed_step(take_armed_step(armed).1).0 == SamplingDecision::Drop,
        armed ==> take_armed_step(armed).0 == SamplingDecision::Record,
{
}

/// The error count of a window is the number of error outcomes in it, the
/// newest one included: recording an error adds one, recording a success
/// adds nothing, and the count never exceeds the window's length.
pub proof fn law_error_count_counts_errors(window: Seq<bool>, was_error: bool)
    ensures
        error_count(window) == window.filter(|e: bool| e).len(),
        error_count(window.push(was_error)) == error_count(window) + if was_error {
            1nat
        } else {
            0nat
        },
        error_count(window) <= window.len(),
    decreases window.len(),
{
    reveal(Seq::filter);
    assert(window.push(was_error).drop_last() =~= window);
    if window.len() > 0 {
        law_error_count_counts_errors(window.drop_last(), was_error);
    }
}

/// The count of the oldest outcome and of the rest add up: the count of a
/// non-empty window is that of its oldest outcome plus that of the others.
proof fn lemma_error_count_first(window: Seq<bool>)
    requires
        window.len() > 0,
    ensures
        error_count(window) == error_count(window.drop_first()) + if window[0] {
            1nat
        } else {
            0nat
        },
    decreases window.len(),
{
    if window.len() > 1 {
        lemma_error_count_first(window.drop_last());
        assert(window.drop_last().drop_first() =~= window.drop_first().drop_last());
        assert(window.drop_last()[0] == window[0]);
        assert(window.drop_first().last() == window.last());
    } else {
        assert(window.drop_first() =~= Seq::<bool>::empty());
        assert(window.drop_last() =~= Seq::<bool>::empty());
    }
}

/// Sliding keeps the count exact: after an outcome is recorded, the count
/// gains the new outcome and, when the window was full, loses the evicted
/// oldest one.
pub proof fn law_slide_updates_error_count(window: Seq<bool>, capacity: nat, was_error: bool)
    requires
        0 < capacity,
        window.len() <= capacity,
    ensures
        error_count(slide(window, capacity, was_error)) + (if window.len() >= capacity && window[0] {
            1nat
        } else {
            0nat
        }) == error_count(window) + if was_error {
            1nat
        } else {
            0nat
        },
{
    if window.len() >= capacity {
        lemma_error_count_first(window);
        law_error_count_counts_errors(window.drop_first(), was_error);
    } else {
        law_error_count_counts_errors(window, was_error);
    }
}

// ---------------------------------------------------------------------------
// Trace-id hash
// ---------------------------------------------------------------------------

/// `x * y` modulo 2^64.
pub open spec fn wrap_mul(x: u64, y: u64) -> u64 {
    ((x as nat * y as nat) % 0x1_0000_0000_0000_0000nat) as u64
}

/// `x + y` modulo 2^64.
pub open spec fn wrap_add(x: u64, y: u64) -> u64 {
    ((x as nat + y as nat) % 0x1_0000_0000_0000_0000nat) as u64
}

/// FNV-1a fold of the bytes (64-bit offset basis and prime).
pub open spec fn fnv1a(bytes: Seq<u8>) -> u64
    decreases bytes.len(),
{
    if bytes.len() == 0 {
        0xcbf2_9ce4_8422_2325u64
    } else {
        wrap_mul(fnv1a(bytes.drop_last()) ^ (bytes.last() as u64), 0x0000_0100_0000_01b3u64)
    }
}

/// The splitmix64 finalizer (Stafford variant 13).
pub open spec fn splitmix64_mix(seed: u64) -> u64 {
    let z0 = wrap_add(seed, 0x9e37_79b9_7f4a_7c15u64);
    let z1 = wrap_mul(z0 ^ (z0 >> 30u64), 0xbf58_476d_1ce4_e5b9u64);
    let z2 = wrap_mul(z1 ^ (z1 >> 27u64), 0x94d0_49bb_1331_11ebu64);
    z2 ^ (z2 >> 31u64)
}

/// The stable hash of a trace id's bytes: splitmix64 mixing of their FNV-1a
/// fold.
pub open spec fn trace_id_hash(bytes: Seq<u8>) -> u64 {
    splitmix64_mix(fnv1a(bytes))
}

/// Deterministic 64-bit hash of `bytes`: FNV-1a fold, then the splitmix64
/// finalizer. Ratio-based sampling compares it, scaled to `[0, 1]`, with the
/// sampling rate.
pub fn splitmix64_hash(bytes: &[u8]) -> (h: u64)
    ensures
        h == trace_id_hash(bytes@),
        h == splitmix64_mix(fnv1a(bytes@)),
{
    let mut seed: u64 = 0xcbf2_9ce4_8422_2325;
    let mut i: usize = 0;
    while i < bytes.len()
        invariant
            i <= bytes@.len(),
            seed == fnv1a(bytes@.take(i as int)),
        decreases bytes.len() - i,
    {
        assert(bytes@.take(i + 1).drop_last() =~= bytes@.take(i as int));
        seed = seed ^ (bytes[i] as u64);
        seed = seed.wrapping_mul(0x0000_0100_0000_01b3);
        i = i + 1;
    }
    assert(bytes@.take(bytes@.len() as int) =~= bytes@);
    let mut z = seed.wrapping_add(0x9e37_79b9_7f4a_7c15);
    z = (z ^ (z >> 30)).wrapping_mul(0xbf58_476d_1ce4_e5b9);
    z = (z ^ (z >> 27)).wrapping_mul(0x94d0_49bb_1331_11eb);
    z ^ (z >> 31)
}

/// Multiplying by `q` modulo 2^64 undoes multiplying by `p` when `p * q` is 1
/// modulo 2^64.
proof fn lemma_wrap_mul_undone(a: u64, p: u64, q: u64)
    requires
        (p as int * q as int) % 0x1_0000_0000_0000_0000int == 1,
    ensures
        wrap_mul(wrap_mul(a, p), q) == a,
{
    let m = 0x1_0000_0000_0000_0000int;
    let ap = a as int * p as int;
    assert(wrap_mul(a, p) as int == ap % m);
    lemma_mul_mod_noop_left(ap, q as int, m);
    lemma_mul_is_associative(a as int, p as int, q as int);
    lemma_mul_mod_noop_right(a as int, p as int * q as int, m);
    lemma_small_mod(a as nat, m as nat);
}

/// Multiplication modulo 2^64 by an invertible factor loses nothing.
proof fn lemma_wrap_mul_injective(a: u64, b: u64, p: u64, q: u64)
    requires
        (p as int * q as int) % 0x1_0000_0000_0000_0000int == 1,
        wrap_mul(a, p) == wrap_mul(b, p),
    ensures
        a == b,
{
    lemma_wrap_mul_undone(a, p, q);
    lemma_wrap_mul_undone(b, p, q);
}

/// Addition modulo 2^64 loses nothing.
proof fn lemma_wrap_add_injective(a: u64, b: u64, c: u64)
    requires
        wrap_add(a, c) == wrap_add(b, c),
    ensures
        a == b,
{
}

/// One FNV-1a step loses nothing: distinct seeds give distinct results for
/// the same byte, and distinct bytes give distinct results for the same seed.
proof fn lemma_fnv_step_injective(s: u64, t: u64, x: u8, y: u8)
    requires
        wrap_mul(s ^ (x as u64), 0x0000_0100_0000_01b3u64) == wrap_mul(t ^ (y as u64), 0x0000_0100_0000_01b3u64),
        s == t || x == y,
    ensures
        s == t && x == y,
{
    lemma_wrap_mul_injective(s ^ (x as u64), t ^ (y as u64), 0x0000_0100_0000_01b3u64, 0xce96_5057_aff6_957bu64);
    assert((s ^ (x as u64)) == (t ^ (y as u64)) && (s == t || x == y) ==> s == t && x == y) by (bit_vector);
}

/// The splitmix64 finalizer is one-to-one.
proof fn lemma_splitmix64_mix_injective(s: u64, t: u64)
    requires
        splitmix64_mix(s) == splitmix64_mix(t),
    ensures
        s == t,
{
    let a0 = wrap_add(s, 0x9e37_79b9_7f4a_7c15u64);
    let b0 = wrap_add(t, 0x9e37_79b9_7f4a_7c15u64);
    let a1 = wrap_mul(a0 ^ (a0 >> 30u64), 0xbf58_476d_1ce4_e5b9u64);
    let b1 = wrap_mul(b0 ^ (b0 >> 30u64), 0xbf58_476d_1ce4_e5b9u64);
    let a2 = wrap_mul(a1 ^ (a1 >> 27u64), 0x94d0_49bb_1331_11ebu64);
    let b2 = wrap_mul(b1 ^ (b1 >> 27u64), 0x94d0_49bb_1331_11ebu64);
    assert((a2 ^ (a2 >> 31u64)) == (b2 ^ (b2 >> 31u64)) ==> a2 == b2) by (bit_vector);
    lemma_wrap_mul_injective(a1 ^ (a1 >> 27u64), b1 ^ (b1 >> 27u64), 0x94d0_49bb_1331_11ebu64, 0x3196_42b2_d24d_8ec3u64);
    assert((a1 ^ (a1 >> 27u64)) == (b1 ^ (b1 >> 27u64)) ==> a1 == b1) by (bit_vector);
    lemma_wrap_mul_injective(a0 ^ (a0 >> 30u64), b0 ^ (b0 >> 30u64), 0xbf58_476d_1ce4_e5b9u64, 0x96de_1b17_3f11_9089u64);
    assert((a0 ^ (a0 >> 30u64)) == (b0 ^ (b0 >> 30u64)) ==> a0 == b0) by (bit_vector);
    lemma_wrap_add_injective(s, t, 0x9e37_79b9_7f4a_7c15u64);
}

/// The hash folds every byte of the trace id, with no bound on its length:
/// the empty id gives the FNV-1a offset basis, each further byte is xor-ed
/// into the seed, which is then multiplied by the FNV-1a prime, and the hash
/// is the splitmix64 mixing of the final seed.
pub proof fn law_hash_folds_every_byte(bytes: Seq<u8>, x: u8)
    ensures
        fnv1a(Seq::<u8>::empty()) == 0xcbf2_9ce4_8422_2325u64,
        fnv1a(bytes.push(x)) == wrap_mul(fnv1a(bytes) ^ (x as u64), 0x0000_0100_0000_01b3u64),
        trace_id_hash(bytes) == splitmix64_mix(fnv1a(bytes)),
{
    assert(bytes.push(x).drop_last() =~= bytes);
}

/// Every byte counts: two trace ids that differ in a single byte, at any
/// position, have different hashes.
pub proof fn law_hash_sees_every_byte(prefix: Seq<u8>, x: u8, y: u8, suffix: Seq<u8>)
    requires
        x != y,
    ensures
        fnv1a(prefix.push(x) + suffix) != fnv1a(prefix.push(y) + suffix),
        trace_id_hash(prefix.push(x) + suffix) != trace_id_hash(prefix.push(y) + suffix),
    decreases suffix.len(),
{
    let bx = prefix.push(x) + suffix;
    let by = prefix.push(y) + suffix;
    if suffix.len() == 0 {
        assert(bx =~= prefix.push(x));
        assert(by =~= prefix.push(y));
        law_hash_folds_every_byte(prefix, x);
        law_hash_folds_every_byte(prefix, y);
        if fnv1a(bx) == fnv1a(by) {
            lemma_fnv_step_injective(fnv1a(prefix), fnv1a(prefix), x, y);
        }
    } else {
        let rest = suffix.drop_last();
        let z = suffix.last();
        law_hash_sees_every_byte(prefix, x, y, rest);
        assert(bx =~= (prefix.push(x) + rest).push(z));
        assert(by =~= (prefix.push(y) + rest).push(z));
        law_hash_folds_every_byte(prefix.push(x) + rest, z);
        law_hash_folds_every_byte(prefix.push(y) + rest, z);
        if fnv1a(bx) == fnv1a(by) {
            lemma_fnv_step_injective(fnv1a(prefix.push(x) + rest), fnv1a(prefix.push(y) + rest), z, z);
        }
    }
    if trace_id_hash(bx) == trace_id_hash(by) {
        lemma_splitmix64_mix_injective(fnv1a(bx), fnv1a(by));
    }
}

} // verus!
