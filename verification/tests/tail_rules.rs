use pheno_tracing::{Sampler, SamplingDecision, SpanAttributes, SpanContext, TailSampler, TailSamplingRule};

#[test]
fn tail_sampler_rule_match_records_trace() {
    let error_rule = TailSamplingRule::errors();
    let mut sampler = TailSampler::new(vec![error_rule]);
    assert_eq!(sampler.name(), "tail-rule");
    assert_eq!(sampler.rules().len(), 1);

    sampler.observe_outcome("trace-healthy", "GET /foo", false, Some(50));
    assert_eq!(
        sampler.should_sample(&SpanContext::root("trace-healthy", "s", false)),
        SamplingDecision::Drop,
        "healthy span must not match the error-only rule"
    );

    sampler.observe_outcome("trace-error", "GET /foo", true, Some(50));
    assert_eq!(
        sampler.should_sample(&SpanContext::root("trace-error", "s", false)),
        SamplingDecision::Record,
        "error span must match the error-only rule"
    );

    let slow_rule = TailSamplingRule::slow(100);
    let mut sampler = TailSampler::new(vec![slow_rule]);

    sampler.observe_outcome("trace-fast", "GET /foo", false, Some(50));
    assert_eq!(
        sampler.should_sample(&SpanContext::root("trace-fast", "s", false)),
        SamplingDecision::Drop,
        "fast span (50ms) must not match the slow(100ms) rule"
    );

    sampler.observe_outcome("trace-slow", "GET /foo", false, Some(200));
    assert_eq!(
        sampler.should_sample(&SpanContext::root("trace-slow", "s", false)),
        SamplingDecision::Record,
        "slow span (200ms) must match the slow(100ms) rule"
    );

    sampler.observe_outcome("trace-unknown", "GET /foo", false, None);
    assert_eq!(
        sampler.should_sample(&SpanContext::root("trace-unknown", "s", false)),
        SamplingDecision::Drop,
        "span with unknown duration must not match a min_duration_ms rule"
    );

    let named_rule = TailSamplingRule::named("POST /checkout");
    let mut sampler = TailSampler::new(vec![named_rule]);

    sampler.observe_outcome("trace-other", "GET /foo", false, Some(50));
    assert_eq!(
        sampler.should_sample(&SpanContext::root("trace-other", "s", false)),
        SamplingDecision::Drop,
        "span with a different name must not match the named rule"
    );

    sampler.observe_outcome("trace-checkout", "POST /checkout", false, Some(50));
    assert_eq!(
        sampler.should_sample(&SpanContext::root("trace-checkout", "s", false)),
        SamplingDecision::Record,
        "span with the matching name must match the named rule"
    );
}

#[test]
fn tail_sampler_multi_rule_composition() {
    let mut sampler = TailSampler::new(vec![TailSamplingRule::errors(), TailSamplingRule::slow(100)]);

    sampler.observe_outcome("trace-hf", "GET /foo", false, Some(50));
    assert_eq!(
        sampler.should_sample(&SpanContext::root("trace-hf", "s", false)),
        SamplingDecision::Drop,
        "healthy fast span must match neither rule"
    );

    sampler.observe_outcome("trace-err", "GET /foo", true, Some(50));
    assert_eq!(
        sampler.should_sample(&SpanContext::root("trace-err", "s", false)),
        SamplingDecision::Record,
        "error span must match rule 1 (errors)"
    );

    sampler.observe_outcome("trace-slow", "GET /foo", false, Some(500));
    assert_eq!(
        sampler.should_sample(&SpanContext::root("trace-slow", "s", false)),
        SamplingDecision::Record,
        "healthy slow span must match rule 2 (slow)"
    );

    sampler.observe_outcome("trace-both", "GET /foo", true, Some(500));
    assert_eq!(
        sampler.should_sample(&SpanContext::root("trace-both", "s", false)),
        SamplingDecision::Record
    );

    sampler.reset();
    assert_eq!(
        sampler.should_sample(&SpanContext::root("trace-err", "s", false)),
        SamplingDecision::Drop,
        "reset() must clear all marks"
    );
}

#[test]
fn tail_sampler_three_arg_method_consults_rules() {
    let mut sampler = TailSampler::new(vec![TailSamplingRule::errors()]);
    let mut attrs = SpanAttributes::new();
    attrs.insert("error".to_string(), "true".to_string());

    sampler.observe_outcome("trace-x", "span", true, Some(10));
    assert_eq!(
        sampler.should_sample_with_attrs("trace-x", "span", &attrs),
        SamplingDecision::Record,
        "TailSampler should_sample_with_attrs must return Record for a marked trace_id"
    );

    let empty_attrs = SpanAttributes::new();
    assert_eq!(
        sampler.should_sample_with_attrs("trace-unmarked", "span", &empty_attrs),
        SamplingDecision::Drop,
        "TailSampler should_sample_with_attrs must return Drop for an unmarked trace_id"
    );
}
