//! OTLP exporter settings resolved from environment values.
//!
//! | Variable                       | Default                 |
//! |--------------------------------|-------------------------|
//! | `OTEL_COLLECTOR_GRPC_ENDPOINT` | `http://localhost:4317` |
//! | `OTEL_SERVICE_NAME`            | `pheno-tracing`         |
//! | `OTEL_SERVICE_VERSION`         | the crate version       |
//! | `OTEL_EXPORTER_OTLP_TIMEOUT`   | `10` (seconds)          |
//!
//! Reading the variables is the caller's part; [`OtlpEnvConfig::from_values`]
//! turns what was read into settings, with [`parse_u64`] for the timeout.

use vstd::prelude::*;

verus! {

/// Default OTLP/gRPC collector endpoint.
pub const DEFAULT_OTLP_ENDPOINT: &'static str = "http://localhost:4317";

/// Default service name: the crate's package name.
pub const DEFAULT_SERVICE_NAME: &'static str = "pheno-tracing";

/// Default service version: the crate's package version.
pub const DEFAULT_SERVICE_VERSION: &'static str = "0.3.0-pre.0";

/// Default per-export timeout, in seconds.
pub const DEFAULT_TIMEOUT_SECS: u64 = 10;

/// `c` is an ASCII decimal digit.
pub open spec fn is_digit(c: char) -> bool {
    '0' <= c <= '9'
}

/// The value of a string of decimal digits (0 for the empty string).
pub open spec fn decimal_value(s: Seq<char>) -> int
    decreases s.len(),
{
    if s.len() == 0 {
        0
    } else {
        decimal_value(s.drop_last()) * 10 + ((s.last() as u32) - 48)
    }
}

/// The digits of an unsigned number: one optional leading `+` is dropped.
pub open spec fn unsigned_digits(s: Seq<char>) -> Seq<char> {
    if s.len() > 0 && s[0] == '+' {
        s.drop_first()
    } else {
        s
    }
}

/// The `u64` a string denotes: an optional `+` followed by at least one
/// decimal digit and nothing else, with a value that fits in 64 bits.
pub open spec fn parsed_u64(s: Seq<char>) -> Option<u64> {
    let d = unsigned_digits(s);
    if d.len() > 0 && (forall|i: int| 0 <= i < d.len() ==> is_digit(#[trigger] d[i])) && decimal_value(d)
        <= u64::MAX {
        Some(decimal_value(d) as u64)
    } else {
        None
    }
}

proof fn lemma_decimal_prefix_le(s: Seq<char>, k: int)
    requires
        0 <= k <= s.len(),
        forall|i: int| 0 <= i < s.len() ==> is_digit(#[trigger] s[i]),
    ensures
        0 <= decimal_value(s.take(k)) <= decimal_value(s),
    decreases s.len(),
{
    if k == s.len() {
        assert(s.take(k) =~= s);
        lemma_decimal_nonneg(s);
    } else {
        let t = s.drop_last();
        assert forall|i: int| 0 <= i < t.len() implies is_digit(#[trigger] t[i]) by {
            assert(t[i] == s[i]);
        }
        lemma_decimal_prefix_le(t, k);
        assert(t.take(k) =~= s.take(k));
        assert(is_digit(s[s.len() - 1]));
    }
}

proof fn lemma_decimal_nonneg(s: Seq<char>)
    requires
        forall|i: int| 0 <= i < s.len() ==> is_digit(#[trigger] s[i]),
    ensures
        decimal_value(s) >= 0,
    decreases s.len(),
{
    if s.len() > 0 {
        let t = s.drop_last();
        assert forall|i: int| 0 <= i < t.len() implies is_digit(#[trigger] t[i]) by {
            assert(t[i] == s[i]);
        }
        lemma_decimal_nonneg(t);
        assert(is_digit(s[s.len() - 1]));
    }
}

/// Parses an unsigned decimal number as `u64` (see [`parsed_u64`]).
pub fn parse_u64(s: &str) -> (r: Option<u64>)
    ensures
        r == parsed_u64(s@),
{
    let n = s.unicode_len();
    let mut start: usize = 0;
    if n > 0 && s.get_char(0) == '+' {
        start = 1;
    }
    let ghost d = unsigned_digits(s@);
    assert(d =~= s@.skip(start as int));
    if start == n {
        return None;
    }
    let mut acc: u64 = 0;
    let mut i: usize = start;
    assert(d.take(0) =~= Seq::<char>::empty());
    while i < n
        invariant
            start <= i <= n,
            n == s@.len(),
            d == s@.skip(start as int),
            d == unsigned_digits(s@),
            d.len() == n - start,
            acc == decimal_value(d.take(i - start)),
            forall|j: int| 0 <= j < i - start ==> is_digit(#[trigger] d[j]),
        decreases n - i,
    {
        let c = s.get_char(i);
        let k = i - start;
        assert(d[k as int] == c);
        if !('0' <= c && c <= '9') {
            return None;
        }
        let digit = (c as u32 - 48) as u64;
        assert(d.take(k + 1).drop_last() =~= d.take(k as int));
        assert(d.take(k + 1).last() == c);
        assert(decimal_value(d.take(k + 1)) == acc * 10 + digit);
        proof {
            if forall|j: int| 0 <= j < d.len() ==> is_digit(#[trigger] d[j]) {
                lemma_decimal_prefix_le(d, k + 1);
            }
        }
        match acc.checked_mul(10) {
            None => {
                return None;
            },
            Some(m) => match m.checked_add(digit) {
                None => {
                    return None;
                },
                Some(v) => {
                    acc = v;
                },
            },
        }
        i = i + 1;
    }
    assert(d.take(n - start) =~= d);
    Some(acc)
}

/// Resolved OTLP exporter settings.
#[derive(Debug, Clone, PartialEq, Eq)]
pub struct OtlpEnvConfig {
    /// OTLP/gRPC collector URL.
    pub endpoint: String,
    /// `service.name` resource attribute.
    pub service_name: String,
    /// `service.version` resource attribute.
    pub service_version: String,
    /// Per-export timeout, in seconds.
    pub timeout_secs: u64,
}

/// A set value, or the default.
pub open spec fn or_default(v: Option<String>, default: Seq<char>) -> Seq<char> {
    match v {
        Some(s) => s@,
        None => default,
    }
}

/// The timeout a raw timeout value yields: its number when it parses,
/// otherwise the default.
pub open spec fn timeout_from(v: Option<String>) -> u64 {
    match v {
        Some(s) => match parsed_u64(s@) {
            Some(t) => t,
            None => DEFAULT_TIMEOUT_SECS,
        },
        None => DEFAULT_TIMEOUT_SECS,
    }
}

impl OtlpEnvConfig {
    /// Settings from the raw values of `OTEL_COLLECTOR_GRPC_ENDPOINT`,
    /// `OTEL_SERVICE_NAME`, `OTEL_SERVICE_VERSION` and
    /// `OTEL_EXPORTER_OTLP_TIMEOUT` (`None` when unset). A value that is set
    /// takes precedence over the default; a timeout that does not parse falls
    /// back to the default.
    pub fn from_values(
        endpoint: Option<String>,
        service_name: Option<String>,
        service_version: Option<String>,
        timeout: Option<String>,
    ) -> (c: Self)
        ensures
            c.endpoint@ == or_default(endpoint, DEFAULT_OTLP_ENDPOINT@),
            c.service_name@ == or_default(service_name, DEFAULT_SERVICE_NAME@),
            c.service_version@ == or_default(service_version, DEFAULT_SERVICE_VERSION@),
            c.timeout_secs == timeout_from(timeout),
    {
        let endpoint = match endpoint {
            Some(e) => e,
            None => DEFAULT_OTLP_ENDPOINT.to_owned(),
        };
        let service_name = match service_name {
            Some(n) => n,
            None => DEFAULT_SERVICE_NAME.to_owned(),
        };
        let service_version = match service_version {
            Some(v) => v,
            None => DEFAULT_SERVICE_VERSION.to_owned(),
        };
        let timeout_secs = match timeout {
            Some(t) => match parse_u64(t.as_str()) {
                Some(secs) => secs,
                None => DEFAULT_TIMEOUT_SECS,
            },
            None => DEFAULT_TIMEOUT_SECS,
        };
        OtlpEnvConfig { endpoint, service_name, service_version, timeout_secs }
    }
}

} // verus!
