//! Version tags for the `tracing` 0.1 → 0.2 forward-compatibility facade.
//!
//! The crate is compiled against `tracing` 0.1, whose backend abstraction is
//! called `Subscriber`; the projected 0.2 name is `Collector`. These tags let
//! downstream code branch on the active backend without depending on
//! `tracing`'s own version APIs.

use vstd::prelude::*;

verus! {

/// Concrete `tracing` major version this crate is compiled against.
#[derive(Debug, Clone, Copy, PartialEq, Eq, Hash, Structural)]
pub enum TracingVersion {
    /// `tracing = "0.1"`. Subscriber-based API.
    V0_1,
    /// `tracing = "0.2"`. Collector-based API.
    V0_2,
}

/// The version this crate is compiled against.
pub open spec fn compiled_version() -> TracingVersion {
    TracingVersion::V0_1
}

/// The backend kind that corresponds to a `tracing` version.
pub open spec fn kind_of_version(v: TracingVersion) -> SubscriberKind {
    match v {
        TracingVersion::V0_1 => SubscriberKind::Subscriber,
        TracingVersion::V0_2 => SubscriberKind::Collector,
    }
}

/// The `tracing` version that corresponds to a backend kind.
pub open spec fn version_of_kind(k: SubscriberKind) -> TracingVersion {
    match k {
        SubscriberKind::Subscriber => TracingVersion::V0_1,
        SubscriberKind::Collector => TracingVersion::V0_2,
    }
}

impl TracingVersion {
    /// Returns the `tracing` version this crate was compiled against.
    pub fn current() -> (v: Self)
        ensures
            v == compiled_version(),
    {
        TracingVersion::V0_1
    }

    /// The version as it is printed: `"0.1"` or `"0.2"`.
    pub fn to_string(&self) -> (s: String)
        ensures
            *self == TracingVersion::V0_1 ==> s@ == "0.1"@,
            *self == TracingVersion::V0_2 ==> s@ == "0.2"@,
    {
        match self {
            TracingVersion::V0_1 => "0.1".to_owned(),
            TracingVersion::V0_2 => "0.2".to_owned(),
        }
    }
}

impl Default for TracingVersion {
    fn default() -> (v: Self)
        ensures
            v == compiled_version(),
    {
        Self::current()
    }
}

/// Tag for the version this crate is compiled against.
pub const TRACING_VERSION: TracingVersion = TracingVersion::V0_1;

/// Which backend kind the active `tracing` version uses.
#[derive(Debug, Clone, Copy, PartialEq, Eq, Hash, Structural)]
pub enum SubscriberKind {
    /// `tracing::Subscriber` (0.1).
    Subscriber,
    /// `tracing::Collector` (0.2).
    Collector,
}

impl SubscriberKind {
    /// Returns the backend kind matching the compiled `tracing` version.
    pub fn current() -> (k: Self)
        ensures
            k == kind_of_version(compiled_version()),
    {
        match TRACING_VERSION {
            TracingVersion::V0_1 => SubscriberKind::Subscriber,
            TracingVersion::V0_2 => SubscriberKind::Collector,
        }
    }
}

impl Default for SubscriberKind {
    fn default() -> (k: Self)
        ensures
            k == kind_of_version(compiled_version()),
    {
        Self::current()
    }
}

/// Returns the active backend kind.
pub fn current_backend_kind() -> (k: SubscriberKind)
    ensures
        k == kind_of_version(compiled_version()),
{
    SubscriberKind::current()
}

/// Facade for the active tracing backend, tagged with its kind.
#[derive(Debug, Clone, Copy, PartialEq, Eq, Structural)]
pub struct TracingBackend {
    kind: SubscriberKind,
}

impl TracingBackend {
    /// The kind this backend is tagged with.
    pub closed spec fn spec_kind(&self) -> SubscriberKind {
        self.kind
    }

    /// A backend tagged with the currently compiled kind.
    pub fn new() -> (b: Self)
        ensures
            b.spec_kind() == kind_of_version(compiled_version()),
    {
        TracingBackend { kind: current_backend_kind() }
    }

    /// A backend tagged with an explicit kind.
    pub fn with_kind(kind: SubscriberKind) -> (b: Self)
        ensures
            b.spec_kind() == kind,
    {
        TracingBackend { kind }
    }

    /// The kind tag of this backend.
    pub fn kind(&self) -> (k: SubscriberKind)
        ensures
            k == self.spec_kind(),
    {
        self.kind
    }

    /// The `tracing` version this backend corresponds to.
    pub fn version(&self) -> (v: TracingVersion)
        ensures
            v == version_of_kind(self.spec_kind()),
    {
        match self.kind {
            SubscriberKind::Subscriber => TracingVersion::V0_1,
            SubscriberKind::Collector => TracingVersion::V0_2,
        }
    }
}

impl Default for TracingBackend {
    fn default() -> (b: Self)
        ensures
            b.spec_kind() == kind_of_version(compiled_version()),
    {
        Self::new()
    }
}

/// Kinds and versions correspond one to one: mapping a kind to its version
/// and back gives the kind, and the other way round.
pub proof fn law_kind_version_round_trip(k: SubscriberKind, v: TracingVersion)
    ensures
        kind_of_version(version_of_kind(k)) == k,
        version_of_kind(kind_of_version(v)) == v,
{
}

} // verus!
