use pheno_tracing::cardinality_cap::DEFAULT_CAP;
use pheno_tracing::{CardinalityCap, SpanAttributes, DEFAULT_CARDINALITY_CAP, DEFAULT_OVERFLOW_MARKER};

fn batch(name: &str, values: impl IntoIterator<Item = String>) -> SpanAttributes {
    let mut attrs = SpanAttributes::new();
    for v in values {
        attrs.push(name.to_string(), v);
    }
    attrs
}

#[test]
fn cardinality_cap_keeps_values_under_threshold() {
    let mut cap = CardinalityCap::with_default();
    assert_eq!(cap.cap(), DEFAULT_CAP);
    assert_eq!(cap.overflow_marker(), DEFAULT_OVERFLOW_MARKER);

    let mut attrs = batch("user_id", (0..50).map(|i| format!("user-{i:03}")));

    let report = cap.process(&mut attrs);

    assert_eq!(report.inspected, 50);
    assert_eq!(report.kept, 50);
    assert_eq!(report.overflowed, 0);

    assert_eq!(cap.seen_value_count("user_id"), 50);
    assert!(attrs
        .values()
        .iter()
        .all(|v| v.starts_with("user-") && v != DEFAULT_OVERFLOW_MARKER));
}

#[test]
fn cardinality_cap_replaces_overflow_with_marker() {
    let mut cap = CardinalityCap::new(5);
    let mut attrs = batch("request_id", (0..12).map(|i| format!("req-{i:03}")));

    let report = cap.process(&mut attrs);

    assert_eq!(report.inspected, 12);
    assert_eq!(report.kept, 5, "first 5 distinct values must be kept");
    assert_eq!(report.overflowed, 7, "remaining 7 must be replaced");

    assert_eq!(cap.seen_value_count("request_id"), 5);

    let values = attrs.values();
    let kept: Vec<&String> = values.iter().filter(|v| v.as_str() != DEFAULT_OVERFLOW_MARKER).collect();
    let overflow: Vec<&String> = values.iter().filter(|v| v.as_str() == DEFAULT_OVERFLOW_MARKER).collect();
    assert_eq!(kept.len(), 5);
    assert_eq!(overflow.len(), 7);
    for v in &kept {
        assert!(v.starts_with("req-"), "kept value should be unchanged: {v}");
    }
}

#[test]
fn cardinality_cap_preserves_already_seen_values() {
    let mut cap = CardinalityCap::new(5);

    let mut batch_1 = batch("endpoint", ["a", "b", "c", "d", "e"].iter().map(|s| s.to_string()));
    let r1 = cap.process(&mut batch_1);
    assert_eq!(r1.kept, 5);
    assert_eq!(r1.overflowed, 0);
    assert_eq!(cap.seen_value_count("endpoint"), 5);

    let mut batch_2 = batch("endpoint", ["f", "g", "h", "i", "j", "k", "l"].iter().map(|s| s.to_string()));
    let r2 = cap.process(&mut batch_2);
    assert_eq!(r2.kept, 0);
    assert_eq!(r2.overflowed, 7);
    assert_eq!(cap.seen_value_count("endpoint"), 5, "seen-set must NOT grow past cap");

    let mut batch_3 = batch("endpoint", ["a", "b", "c", "m", "n"].iter().map(|s| s.to_string()));
    let r3 = cap.process(&mut batch_3);
    assert_eq!(r3.kept, 3, "3 already-seen values must pass through verbatim");
    assert_eq!(r3.overflowed, 2, "2 new values must overflow");
    assert_eq!(cap.seen_value_count("endpoint"), 5);

    let values = batch_3.values();
    let kept: Vec<&String> = values.iter().filter(|v| v.as_str() != DEFAULT_OVERFLOW_MARKER).collect();
    let overflow: Vec<&String> = values.iter().filter(|v| v.as_str() == DEFAULT_OVERFLOW_MARKER).collect();
    assert_eq!(kept.len(), 3);
    assert_eq!(overflow.len(), 2);
    let mut kept_sorted: Vec<&str> = kept.iter().map(|s| s.as_str()).collect();
    kept_sorted.sort();
    assert_eq!(kept_sorted, vec!["a", "b", "c"]);
}

#[test]
fn cardinality_cap_reset_clears_seen_registry() {
    let mut cap = CardinalityCap::new(2);
    let mut attrs = batch("k", (0..5).map(|i| format!("v{i}")));
    let r = cap.process(&mut attrs);
    assert_eq!(r.kept, 2);
    assert_eq!(r.overflowed, 3);
    assert_eq!(cap.seen_value_count("k"), 2);

    cap.reset();
    let mut attrs = batch("k", (0..5).map(|i| format!("v{i}")));
    let r = cap.process(&mut attrs);
    assert_eq!(r.kept, 2);
    assert_eq!(r.overflowed, 3);
}

#[test]
fn cardinality_cap_is_per_attribute_name() {
    let mut cap = CardinalityCap::new(2);
    let mut a = batch("name_a", (0..3).map(|i| format!("a{i}")));
    let ra = cap.process(&mut a);
    assert_eq!(ra.kept, 2);
    assert_eq!(ra.overflowed, 1);

    let mut b = batch("name_b", (0..3).map(|i| format!("b{i}")));
    let rb = cap.process(&mut b);
    assert_eq!(rb.kept, 2, "name_b has its own cap — must not be affected by name_a");
    assert_eq!(rb.overflowed, 1);
    assert_eq!(cap.seen_name_count(), 2);
}

#[test]
fn cardinality_cap_evicts_to_overflow_marker() {
    const CAP: usize = 3;
    let mut cap = CardinalityCap::new(CAP);
    assert_eq!(cap.cap(), CAP);
    assert_eq!(cap.overflow_marker(), DEFAULT_OVERFLOW_MARKER);

    for i in 0..CAP {
        let mut attrs = SpanAttributes::new();
        attrs.insert("user_id".to_string(), format!("user-{i:03}"));
        let report = cap.process(&mut attrs);
        assert_eq!(report.inspected, 1);
        assert_eq!(report.kept, 1);
        assert_eq!(report.overflowed, 0);
        assert_eq!(attrs.get("user_id").unwrap(), &format!("user-{i:03}"));
    }

    for i in 0..CAP {
        let mut attrs = SpanAttributes::new();
        attrs.insert("user_id".to_string(), format!("user-{i:03}"));
        let report = cap.process(&mut attrs);
        assert_eq!(report.kept, 1, "already-seen value #{i} must be kept");
        assert_eq!(report.overflowed, 0);
        assert_eq!(attrs.get("user_id").unwrap(), &format!("user-{i:03}"));
    }

    for i in 0..2 {
        let mut attrs = SpanAttributes::new();
        attrs.insert("user_id".to_string(), format!("user-overflow-{i}"));
        let report = cap.process(&mut attrs);
        assert_eq!(report.kept, 0);
        assert_eq!(report.overflowed, 1);
        assert_eq!(
            attrs.get("user_id").unwrap(),
            DEFAULT_OVERFLOW_MARKER,
            "(N+1)th value must be replaced with overflow marker"
        );
    }

    let mut cap3 = CardinalityCap::new(3);
    let mut aggregated_inspected = 0;
    let mut aggregated_kept = 0;
    let mut aggregated_overflowed = 0;
    for i in 0..4 {
        let mut attrs = SpanAttributes::new();
        attrs.insert("user_id".to_string(), format!("user-{i:03}"));
        let report = cap3.process(&mut attrs);
        aggregated_inspected += report.inspected;
        aggregated_kept += report.kept;
        aggregated_overflowed += report.overflowed;
    }
    assert_eq!(aggregated_inspected, 4);
    assert_eq!(aggregated_kept, 3, "first 3 distinct values must be kept");
    assert_eq!(aggregated_overflowed, 1, "4th value must overflow");

    let mut recheck_kept = 0;
    let mut recheck_overflowed = 0;
    for i in 0..4 {
        let mut attrs = SpanAttributes::new();
        attrs.insert("user_id".to_string(), format!("user-{i:03}"));
        let report = cap3.process(&mut attrs);
        recheck_kept += report.kept;
        recheck_overflowed += report.overflowed;
    }
    assert_eq!(recheck_kept, 3, "first-N winners must be remembered");
    assert_eq!(recheck_overflowed, 1, "(N+1)th value must overflow");
}

#[test]
fn cardinality_cap_default_is_one_hundred() {
    let cap = CardinalityCap::default();
    assert_eq!(cap.cap(), DEFAULT_CARDINALITY_CAP);
    assert_eq!(cap.cap(), 100);
    assert_eq!(cap.overflow_marker(), "__other__");
    assert_eq!(cap.overflow_marker(), DEFAULT_OVERFLOW_MARKER);
}

#[test]
fn cardinality_cap_zero_overflows_everything() {
    let mut cap = CardinalityCap::new(0);
    let mut attrs = batch("k", ["x".to_string(), "y".to_string()]);
    let report = cap.process(&mut attrs);
    assert_eq!(report.kept, 0);
    assert_eq!(report.overflowed, 2);
    assert_eq!(attrs.values(), vec!["__other__".to_string(), "__other__".to_string()]);
    assert_eq!(cap.seen_name_count(), 1, "the name is recorded even when its value overflows");
    assert_eq!(cap.seen_value_count("k"), 0);
}

#[test]
fn cardinality_cap_custom_marker_and_order() {
    let mut cap = CardinalityCap::with_overflow_marker(1, "<capped>".to_string());
    let mut attrs = SpanAttributes::new();
    attrs.push("a".to_string(), "1".to_string());
    attrs.push("b".to_string(), "2".to_string());
    attrs.push("a".to_string(), "3".to_string());
    attrs.push("a".to_string(), "1".to_string());
    let report = cap.process(&mut attrs);
    assert_eq!(report.inspected, 4);
    assert_eq!(report.kept, 3);
    assert_eq!(report.overflowed, 1);
    let pairs: Vec<(String, String)> = attrs.pairs().to_vec();
    assert_eq!(
        pairs,
        vec![
            ("a".to_string(), "1".to_string()),
            ("b".to_string(), "2".to_string()),
            ("a".to_string(), "<capped>".to_string()),
            ("a".to_string(), "1".to_string()),
        ]
    );
}

#[test]
fn cardinality_cap_second_pass_changes_nothing() {
    let mut cap = CardinalityCap::new(2);
    let mut attrs = batch("k", (0..4).map(|i| format!("v{i}")));
    cap.process(&mut attrs);
    let once = attrs.values();
    let report = cap.process(&mut attrs);
    assert_eq!(attrs.values(), once);
    assert_eq!(report.kept, 2);
    assert_eq!(report.overflowed, 2);
    assert_eq!(cap.seen_value_count("k"), 2);
}

#[test]
fn span_attributes_insert_replaces_first_match() {
    let mut attrs = SpanAttributes::new();
    assert!(attrs.is_empty());
    assert_eq!(attrs.insert("a".to_string(), "1".to_string()), None);
    attrs.push("a".to_string(), "2".to_string());
    assert_eq!(attrs.insert("a".to_string(), "3".to_string()), Some("1".to_string()));
    assert_eq!(attrs.len(), 2);
    assert_eq!(attrs.get("a"), Some(&"3".to_string()));
    assert_eq!(attrs.value_at(1), "2");
    assert_eq!(attrs.name_at(1), "a");
    assert_eq!(attrs.get("missing"), None);
}
