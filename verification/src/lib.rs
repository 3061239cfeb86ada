//! Port-driven distributed tracing substrate.
//!
//! The library holds the decisions of a tracing pipeline, each with a
//! machine-checked contract: which spans a sampler records
//! ([`sampling`]), how span attributes are capped per attribute name
//! ([`cardinality_cap`]), how configuration is resolved from what the
//! environment holds ([`config`], [`env`]), and the data model of the trace
//! port ([`port`]).

pub mod attributes;
pub mod cardinality_cap;
pub mod compat;
pub mod config;
pub mod env;
pub mod otlp;
pub mod port;
pub mod sampling;

pub use attributes::SpanAttributes;
pub use cardinality_cap::{CardinalityCap, CardinalityReport, DEFAULT_CAP as DEFAULT_CARDINALITY_CAP, DEFAULT_OVERFLOW_MARKER};
pub use compat::{current_backend_kind, SubscriberKind, TracingBackend, TracingVersion, TRACING_VERSION};
pub use config::{ConfigError, Format, TracingConfig};
pub use env::OtlpEnvConfig;
pub use otlp::OtlpError;
pub use port::{SpanId, SpanKind, TraceId, TraceOperation, TraceResult, TraceStatus};
pub use sampling::{
    splitmix64_hash, AlwaysSampler, NeverSampler, OutcomeWindow, ParentBasedSampler, Sampler,
    Sampler as HexSamplingPort, SamplingDecision, SpanContext, TailSampler, TailSamplingRule,
};
