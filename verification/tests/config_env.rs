use pheno_tracing::config::eq_ignore_ascii_case;
use pheno_tracing::env::parse_u64;
use pheno_tracing::{
    current_backend_kind, ConfigError, Format, OtlpEnvConfig, OtlpError, SubscriberKind, TracingBackend,
    TracingConfig, TracingVersion, TRACING_VERSION,
};

#[test]
fn test_config_defaults() {
    let config = TracingConfig::default();
    assert_eq!(config.log_level(), "info");
    assert!(matches!(config.format(), Format::Json));
    assert!(config.otlp_endpoint().is_none());
    assert!(!config.otlp_disabled());
}

#[test]
fn test_config_builder() {
    let config = TracingConfig::default()
        .with_service_name("test-service")
        .with_log_level("debug")
        .with_format(Format::Plain)
        .with_otlp_endpoint("http://localhost:4317")
        .with_otlp_disabled(true);

    assert_eq!(config.service_name(), "test-service");
    assert_eq!(config.log_level(), "debug");
    assert!(matches!(config.format(), Format::Plain));
    assert_eq!(config.otlp_endpoint(), Some("http://localhost:4317"));
    assert!(config.otlp_disabled());
}

#[test]
fn otel_env_fills_missing_endpoint_and_disables() {
    let config = TracingConfig::default()
        .apply_otel_env(Some("http://collector:4317".to_string()), Some("true".to_string()));
    assert_eq!(config.otlp_endpoint(), Some("http://collector:4317"));
    assert!(config.otlp_disabled());
}

#[test]
fn otel_env_keeps_configured_endpoint() {
    let config = TracingConfig::default()
        .with_otlp_endpoint("http://mine:4317")
        .apply_otel_env(Some("http://collector:4317".to_string()), None);
    assert_eq!(config.otlp_endpoint(), Some("http://mine:4317"));
    assert!(!config.otlp_disabled());
}

#[test]
fn otel_sdk_disabled_is_case_insensitive_true_only() {
    let base = TracingConfig::default().with_otlp_disabled(true);
    assert!(base.clone().apply_otel_env(None, Some("TRUE".to_string())).otlp_disabled());
    assert!(base.clone().apply_otel_env(None, Some("tRuE".to_string())).otlp_disabled());
    assert!(!base.clone().apply_otel_env(None, Some("1".to_string())).otlp_disabled());
    assert!(!base.clone().apply_otel_env(None, Some("yes".to_string())).otlp_disabled());
    assert!(base.apply_otel_env(None, None).otlp_disabled());
}

#[test]
fn ascii_case_insensitive_equality() {
    assert!(eq_ignore_ascii_case("Ferris", "FERRIS"));
    assert!(eq_ignore_ascii_case("", ""));
    assert!(!eq_ignore_ascii_case("true", "true "));
    assert!(!eq_ignore_ascii_case("[", "{"));
    assert!(eq_ignore_ascii_case("Ünïcode", "Ünïcode"));
    assert!(!eq_ignore_ascii_case("ü", "Ü"));
}

#[test]
fn config_error_messages() {
    assert_eq!(ConfigError::Invalid("bad".to_string()).to_string(), "invalid tracing config: bad");
    assert_eq!(
        ConfigError::FileNotFound("pheno-tracing.toml".to_string()).to_string(),
        "config file not found: pheno-tracing.toml"
    );
    assert_eq!(
        OtlpError::Exporter("x".to_string()).to_string(),
        "failed to build OTLP span exporter: x"
    );
    assert_eq!(
        OtlpError::SubscriberInit("y".to_string()).to_string(),
        "failed to init tracing subscriber: y"
    );
}

#[test]
fn otlp_env_defaults_when_unset() {
    let cfg = OtlpEnvConfig::from_values(None, None, None, None);
    assert_eq!(cfg.endpoint, "http://localhost:4317");
    assert_eq!(cfg.service_name, "pheno-tracing");
    assert_eq!(cfg.service_version, "0.3.0-pre.0");
    assert_eq!(cfg.timeout_secs, 10);
}

#[test]
fn otlp_env_values_take_precedence() {
    let cfg = OtlpEnvConfig::from_values(
        Some("http://otel:4317".to_string()),
        Some("pheno-flags".to_string()),
        Some("9.9.9".to_string()),
        Some("30".to_string()),
    );
    assert_eq!(cfg.endpoint, "http://otel:4317");
    assert_eq!(cfg.service_name, "pheno-flags");
    assert_eq!(cfg.service_version, "9.9.9");
    assert_eq!(cfg.timeout_secs, 30);
}

#[test]
fn otlp_env_invalid_timeout_falls_back() {
    let cfg = OtlpEnvConfig::from_values(None, None, None, Some("not-a-number".to_string()));
    assert_eq!(cfg.timeout_secs, 10);
}

#[test]
fn parse_u64_matches_std() {
    for s in ["0", "42", "+7", "18446744073709551615", "007"] {
        assert_eq!(parse_u64(s), s.parse::<u64>().ok(), "{s}");
    }
    for s in ["", "+", "-1", " 1", "1 ", "18446744073709551616", "1a", "++1", "٣"] {
        assert_eq!(parse_u64(s), None, "{s}");
        assert_eq!(s.parse::<u64>().ok(), None, "{s}");
    }
}

#[test]
fn compat_version_tags() {
    assert_eq!(TracingVersion::current(), TracingVersion::V0_1);
    assert_eq!(TRACING_VERSION, TracingVersion::V0_1);
    assert_eq!(SubscriberKind::current(), SubscriberKind::Subscriber);
    assert_eq!(current_backend_kind(), SubscriberKind::Subscriber);
    assert_eq!(TracingVersion::default().to_string(), "0.1");
    assert_eq!(TracingVersion::V0_2.to_string(), "0.2");
    let backend = TracingBackend::new();
    assert_eq!(backend.kind(), SubscriberKind::Subscriber);
    assert_eq!(backend.version(), TracingVersion::V0_1);
    let other = TracingBackend::with_kind(SubscriberKind::Collector);
    assert_eq!(other.version(), TracingVersion::V0_2);
    assert_eq!(TracingBackend::default(), backend);
}
