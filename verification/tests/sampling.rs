use pheno_tracing::sampling::OutcomeWindow;
use pheno_tracing::{
    splitmix64_hash, AlwaysSampler, NeverSampler, ParentBasedSampler, Sampler, SamplingDecision,
    SpanAttributes, SpanContext, TailSampler, TailSamplingRule,
};

fn child_of(parent: SpanContext) -> SpanContext {
    SpanContext::root("child-trace", "child-span", false).with_parent(parent)
}

#[test]
fn parent_based_honors_sampled_parent() {
    let sampler = ParentBasedSampler::new();
    let parent = SpanContext::root("trace-1", "span-1", true);
    let child = child_of(parent);
    assert_eq!(sampler.should_sample(&child), SamplingDecision::Record);
}

#[test]
fn parent_based_honors_unsampled_parent() {
    let sampler = ParentBasedSampler::new();
    let parent = SpanContext::root("trace-1", "span-1", false);
    let child = child_of(parent);
    assert_eq!(sampler.should_sample(&child), SamplingDecision::Drop);
}

#[test]
fn parent_based_uses_self_flag_when_no_parent() {
    let sampler = ParentBasedSampler::new();
    let sampled = SpanContext::root("t", "s", true);
    let not_sampled = SpanContext::root("t", "s", false);
    assert_eq!(sampler.should_sample(&sampled), SamplingDecision::Record);
    assert_eq!(sampler.should_sample(&not_sampled), SamplingDecision::Drop);
}

#[test]
fn parent_based_propagates_through_multiple_ancestors() {
    let sampler = ParentBasedSampler::new();
    let root = SpanContext::root("t", "r", true);
    let middle = child_of(root);
    let leaf = child_of(middle);
    assert_eq!(sampler.should_sample(&leaf), SamplingDecision::Record);
}

#[test]
fn always_and_never_samplers_are_constant() {
    let always = AlwaysSampler;
    let never = NeverSampler;
    let ctx = SpanContext::root("t", "s", false);
    assert_eq!(always.should_sample(&ctx), SamplingDecision::Record);
    assert_eq!(never.should_sample(&ctx), SamplingDecision::Drop);
}

#[test]
fn sampling_decision_is_record_helper() {
    assert!(SamplingDecision::Record.is_record());
    assert!(!SamplingDecision::Drop.is_record());
}

#[test]
fn span_context_root_sets_sampled_bit() {
    let sampled = SpanContext::root("t", "s", true);
    assert_eq!(sampled.trace_flags, 0x01);
    let not_sampled = SpanContext::root("t", "s", false);
    assert_eq!(not_sampled.trace_flags, 0x00);
    assert!(not_sampled.parent.is_none());
}

#[test]
fn span_context_with_parent_links_chain() {
    let parent = SpanContext::root("p-trace", "p-span", true);
    let child = SpanContext::root("c-trace", "c-span", false).with_parent(parent.clone());
    assert!(child.parent.is_some());
    assert!(child.is_sampled());
    assert!(parent.parent.is_none());
}

#[test]
fn span_context_sampled_bit_is_bit_zero_only() {
    let mut ctx = SpanContext::root("t", "s", false);
    ctx.trace_flags = 0x02;
    assert!(!ctx.is_sampled());
    ctx.trace_flags = 0x03;
    assert!(ctx.is_sampled());
    ctx.trace_flags = 0xff;
    assert!(ctx.is_sampled());
}

#[test]
fn span_context_clone_is_deep_and_equal() {
    let ctx = child_of(child_of(SpanContext::root("t", "r", true)));
    let copy = ctx.clone();
    assert_eq!(copy, ctx);
    assert!(copy.is_sampled());
}

#[test]
fn sampler_names_are_stable() {
    assert_eq!(AlwaysSampler.name(), "always");
    assert_eq!(NeverSampler.name(), "never");
    assert_eq!(ParentBasedSampler::new().name(), "parent-based");
    assert_eq!(TailSampler::new(vec![]).name(), "tail-rule");
}

#[test]
fn three_arg_decisions_of_head_samplers() {
    let attrs = SpanAttributes::new();
    assert_eq!(AlwaysSampler.should_sample_with_attrs("t", "n", &attrs), SamplingDecision::Record);
    assert_eq!(NeverSampler.should_sample_with_attrs("t", "n", &attrs), SamplingDecision::Drop);
    assert_eq!(
        ParentBasedSampler::new().should_sample_with_attrs("t", "n", &attrs),
        SamplingDecision::Drop
    );
}

#[test]
fn rule_matching_combines_fields_with_and() {
    let rule = TailSamplingRule {
        name: Some("GET /a".to_string()),
        error_only: true,
        min_duration_ms: Some(100),
    };
    assert!(rule.matches("GET /a", true, Some(100)));
    assert!(!rule.matches("GET /b", true, Some(100)));
    assert!(!rule.matches("GET /a", false, Some(100)));
    assert!(!rule.matches("GET /a", true, Some(99)));
    assert!(!rule.matches("GET /a", true, None));
    assert!(TailSamplingRule::default().matches("anything", false, None));
}

#[test]
fn tail_sampler_marks_each_trace_once() {
    let mut sampler = TailSampler::new(vec![TailSamplingRule::errors()]);
    sampler.observe_outcome("t1", "s", true, None);
    sampler.observe_outcome("t1", "s", true, None);
    sampler.observe_outcome("t2", "s", false, None);
    assert_eq!(sampler.marked_count(), 1);
    let ctx = SpanContext::root("t1", "s", false);
    assert_eq!(sampler.should_sample(&ctx), SamplingDecision::Record);
    assert_eq!(sampler.should_sample(&ctx), SamplingDecision::Record);
}

#[test]
fn tail_sampler_observe_uses_error_flag_only() {
    let mut sampler = TailSampler::new(vec![TailSamplingRule::errors(), TailSamplingRule::slow(10)]);
    let ctx = SpanContext::root("t-err", "s", false);
    sampler.observe(&ctx, true);
    assert_eq!(sampler.should_sample(&ctx), SamplingDecision::Record);
    let ok = SpanContext::root("t-ok", "s", false);
    sampler.observe(&ok, false);
    assert_eq!(sampler.should_sample(&ok), SamplingDecision::Drop);
}

#[test]
fn outcome_window_slides_and_counts() {
    let mut w = OutcomeWindow::new(3);
    for e in [true, true, false] {
        w.record(e);
    }
    assert_eq!(w.len(), 3);
    assert_eq!(w.error_count(), 2);
    w.record(false);
    assert_eq!(w.len(), 3);
    assert_eq!(w.error_count(), 1);
    w.record(false);
    assert_eq!(w.error_count(), 0);
    assert_eq!(w.capacity(), 3);
}

#[test]
fn outcome_window_armed_flag_is_single_shot() {
    let mut w = OutcomeWindow::new(10);
    assert_eq!(w.take_armed(), SamplingDecision::Drop);
    w.arm();
    assert!(w.is_armed());
    assert_eq!(w.take_armed(), SamplingDecision::Record);
    assert_eq!(w.take_armed(), SamplingDecision::Drop);
    assert!(!w.is_armed());
}

#[test]
fn splitmix64_hash_exact_values() {
    assert_eq!(splitmix64_hash(b""), 14087677454934409008);
    assert_eq!(splitmix64_hash(b"a"), 6857225946766476583);
    assert_eq!(splitmix64_hash("trace-000000".as_bytes()), 7202265109680468847);
}

#[test]
fn sampler_trait_is_object_safe() {
    fn _accept_dyn(_s: &dyn Sampler) {}
    _accept_dyn(&ParentBasedSampler::new());
    _accept_dyn(&AlwaysSampler);
    _accept_dyn(&NeverSampler);
    _accept_dyn(&TailSampler::new(vec![TailSamplingRule::errors()]));
    let samplers: Vec<Box<dyn Sampler>> = vec![Box::new(AlwaysSampler), Box::new(NeverSampler)];
    let ctx = SpanContext::root("t", "s", false);
    let decisions: Vec<SamplingDecision> = samplers.iter().map(|s| s.should_sample(&ctx)).collect();
    assert_eq!(decisions, vec![SamplingDecision::Record, SamplingDecision::Drop]);
}

#[test]
fn three_arg_decision_is_root_context_decision() {
    let mut tail = TailSampler::new(vec![TailSamplingRule::errors()]);
    tail.observe_outcome("t-1", "x", true, None);
    let mut attrs = SpanAttributes::new();
    attrs.push("k".to_string(), "v".to_string());
    for id in ["t-1", "t-2"] {
        let root = SpanContext::root(id, "span", false);
        assert_eq!(tail.should_sample_with_attrs(id, "any-name", &attrs), tail.should_sample(&root));
        let p = ParentBasedSampler::new();
        assert_eq!(p.should_sample_with_attrs(id, "any-name", &attrs), p.should_sample(&root));
    }
}
