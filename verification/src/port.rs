//! Port data model for submitting spans: identifiers, span kinds, the
//! operation submitted and the result returned.

use vstd::prelude::*;
use crate::attributes::SpanAttributes;

verus! {

/// Unique trace identifier (128-bit, base16-encoded in OTLP).
#[derive(Debug, Clone, PartialEq, Eq, Hash)]
pub struct TraceId(pub String);

/// Unique span identifier (64-bit, base16-encoded in OTLP).
#[derive(Debug, Clone, PartialEq, Eq, Hash)]
pub struct SpanId(pub String);

/// Kind of span (the OpenTelemetry span kinds).
#[derive(Debug, Clone, Copy, PartialEq, Eq, Structural)]
pub enum SpanKind {
    /// Internal operation.
    Internal,
    /// Outgoing request.
    Client,
    /// Incoming request.
    Server,
    /// Message producer.
    Producer,
    /// Message consumer.
    Consumer,
}

/// A single trace/span operation submitted to a trace port.
#[derive(Debug, Clone)]
pub struct TraceOperation {
    /// Trace the span belongs to.
    pub trace_id: TraceId,
    /// The span's identifier.
    pub span_id: SpanId,
    /// Parent span, if any.
    pub parent_span_id: Option<SpanId>,
    /// Span kind.
    pub kind: SpanKind,
    /// Span name.
    pub name: String,
    /// Span attributes.
    pub attributes: SpanAttributes,
}

/// Result of a trace submission.
#[derive(Debug, Clone)]
pub struct TraceResult {
    /// Trace of the submitted span.
    pub trace_id: TraceId,
    /// The submitted span.
    pub span_id: SpanId,
    /// Submission status.
    pub status: TraceStatus,
}

/// Status of a trace operation.
#[derive(Debug, Clone, PartialEq, Eq)]
pub enum TraceStatus {
    /// The span was accepted.
    OK,
    /// The span was rejected, with a reason.
    Error(String),
}

} // verus!
