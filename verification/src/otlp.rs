//! Errors of the OTLP export wiring.

use vstd::prelude::*;

verus! {

/// Errors encountered while wiring OTLP export.
#[derive(Debug, Clone, PartialEq, Eq)]
pub enum OtlpError {
    /// Failed to construct the OTLP span exporter.
    Exporter(String),
    /// Failed to install the global tracing subscriber.
    SubscriberInit(String),
}

impl OtlpError {
    /// The error's message.
    pub fn to_string(&self) -> (s: String)
        ensures
            self matches OtlpError::Exporter(m) ==> s@ == "failed to build OTLP span exporter: "@ + m@,
            self matches OtlpError::SubscriberInit(m) ==> s@ == "failed to init tracing subscriber: "@ + m@,
    {
        match self {
            OtlpError::Exporter(m) => "failed to build OTLP span exporter: ".to_owned().concat(m.as_str()),
            OtlpError::SubscriberInit(m) => "failed to init tracing subscriber: ".to_owned().concat(m.as_str()),
        }
    }
}

} // verus!
