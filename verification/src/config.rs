//! Tracing configuration: service name, log level, output format and OTLP
//! export settings.
//!
//! Loading merges defaults, `PHENO_TRACING_*` variables and the well-known
//! OpenTelemetry variables. Reading the environment is the caller's part; the
//! rules that turn what was read into a configuration are here:
//! [`TracingConfig::apply_otel_env`] maps `OTEL_EXPORTER_OTLP_ENDPOINT` and
//! `OTEL_SDK_DISABLED` onto the configuration.

use vstd::prelude::*;

verus! {

/// Output format for tracing events.
#[derive(Debug, Clone, Copy, PartialEq, Eq, Structural)]
pub enum Format {
    /// Plain unstructured text output.
    Plain,
    /// Structured JSON line output.
    Json,
}

impl Default for Format {
    /// JSON is the default format.
    fn default() -> (f: Self)
        ensures
            f == Format::Json,
    {
        Format::Json
    }
}

/// The case-folding of ASCII letters: `A`–`Z` map to `a`–`z`, every other
/// character is left as it is (by code point).
pub open spec fn ascii_fold(c: char) -> int {
    if 65 <= (c as u32) <= 90 {
        (c as u32) + 32
    } else {
        c as u32 as int
    }
}

/// Two strings are equal up to ASCII case.
pub open spec fn eq_ascii_case_insensitive(a: Seq<char>, b: Seq<char>) -> bool {
    &&& a.len() == b.len()
    &&& forall|i: int| 0 <= i < a.len() ==> ascii_fold(#[trigger] a[i]) == ascii_fold(b[i])
}

/// Whether `a` and `b` are an ASCII case-insensitive match.
pub fn eq_ignore_ascii_case(a: &str, b: &str) -> (r: bool)
    ensures
        r == eq_ascii_case_insensitive(a@, b@),
        r ==> a@.len() == b@.len(),
{
    let n = a.unicode_len();
    if n != b.unicode_len() {
        return false;
    }
    let mut i: usize = 0;
    while i < n
        invariant
            i <= n,
            n == a@.len(),
            n == b@.len(),
            forall|j: int| 0 <= j < i ==> ascii_fold(#[trigger] a@[j]) == ascii_fold(b@[j]),
        decreases n - i,
    {
        let x = a.get_char(i) as u32;
        let y = b.get_char(i) as u32;
        let fx = if 65 <= x && x <= 90 { x + 32 } else { x };
        let fy = if 65 <= y && y <= 90 { y + 32 } else { y };
        if fx != fy {
            return false;
        }
        i = i + 1;
    }
    true
}

/// Equality up to ASCII case is an equivalence that keeps lengths: strings of
/// different lengths never match (the empty string matches only itself),
/// every string matches itself, and matching is symmetric.
pub proof fn law_case_insensitive_match_keeps_length(a: Seq<char>, b: Seq<char>)
    ensures
        eq_ascii_case_insensitive(a, b) ==> a.len() == b.len(),
        eq_ascii_case_insensitive(a, Seq::<char>::empty()) == (a.len() == 0),
        eq_ascii_case_insensitive(a, a),
        eq_ascii_case_insensitive(a, b) == eq_ascii_case_insensitive(b, a),
{
}

/// Matching goes character by character, and two characters match exactly
/// when they are equal or are the upper- and lower-case forms of one ASCII
/// letter; every other character (non-ASCII letters included) matches only
/// itself.
pub proof fn law_case_insensitive_match_per_char(a: Seq<char>, b: Seq<char>, c: char, d: char)
    ensures
        eq_ascii_case_insensitive(a, b) == (a.len() == b.len() && forall|i: int|
            0 <= i < a.len() ==> eq_ascii_case_insensitive(seq![#[trigger] a[i]], seq![b[i]])),
        eq_ascii_case_insensitive(seq![c], seq![d]) == {
            ||| c == d
            ||| 65 <= (c as u32) <= 90 && (d as u32) == (c as u32) + 32
            ||| 65 <= (d as u32) <= 90 && (c as u32) == (d as u32) + 32
        },
{
    assert(seq![c][0] == c);
    assert(seq![d][0] == d);
    assert((c as u32) == (d as u32) ==> c == d);
    assert forall|i: int| 0 <= i < a.len() && a.len() == b.len() implies eq_ascii_case_insensitive(
        seq![#[trigger] a[i]],
        seq![b[i]],
    ) == (ascii_fold(a[i]) == ascii_fold(b[i])) by {
        assert(seq![a[i]][0] == a[i]);
        assert(seq![b[i]][0] == b[i]);
    }
}

/// The values that disable OTLP export are exactly the four-letter spellings
/// of `true` in any mix of case.
pub proof fn law_disabling_values(v: Seq<char>)
    ensures
        eq_ascii_case_insensitive(v, "true"@) <==> {
            &&& v.len() == 4
            &&& (v[0] == 't' || v[0] == 'T')
            &&& (v[1] == 'r' || v[1] == 'R')
            &&& (v[2] == 'u' || v[2] == 'U')
            &&& (v[3] == 'e' || v[3] == 'E')
        },
{
    reveal_strlit("true");
    let t = "true"@;
    if v.len() == 4 {
        lemma_fold_matches_letter(v[0], 't', 'T');
        lemma_fold_matches_letter(v[1], 'r', 'R');
        lemma_fold_matches_letter(v[2], 'u', 'U');
        lemma_fold_matches_letter(v[3], 'e', 'E');
        if eq_ascii_case_insensitive(v, t) {
            assert(ascii_fold(v[0]) == ascii_fold(t[0]));
            assert(ascii_fold(v[1]) == ascii_fold(t[1]));
            assert(ascii_fold(v[2]) == ascii_fold(t[2]));
            assert(ascii_fold(v[3]) == ascii_fold(t[3]));
        }
    }
}

/// A character folds to the same as a lower-case ASCII letter exactly when it
/// is that letter or its upper-case form.
proof fn lemma_fold_matches_letter(c: char, lower: char, upper: char)
    requires
        97 <= (lower as u32) <= 122,
        (upper as u32) + 32 == (lower as u32),
    ensures
        ascii_fold(c) == ascii_fold(lower) <==> (c == lower || c == upper),
{
    assert((c as u32) == (lower as u32) ==> c == lower);
    assert((c as u32) == (upper as u32) ==> c == upper);
}

/// Errors that can occur while loading tracing configuration.
#[derive(Debug, Clone, PartialEq, Eq)]
pub enum ConfigError {
    /// The configuration sources held an invalid value.
    Invalid(String),
    /// No config file was found at the expected path.
    FileNotFound(String),
}

impl ConfigError {
    /// The error's message.
    pub fn to_string(&self) -> (s: String)
        ensures
            self matches ConfigError::Invalid(m) ==> s@ == "invalid tracing config: "@ + m@,
            self matches ConfigError::FileNotFound(p) ==> s@ == "config file not found: "@ + p@,
    {
        match self {
            ConfigError::Invalid(m) => "invalid tracing config: ".to_owned().concat(m.as_str()),
            ConfigError::FileNotFound(p) => "config file not found: ".to_owned().concat(p.as_str()),
        }
    }
}

/// Centralised tracing configuration.
#[derive(Debug, Clone)]
pub struct TracingConfig {
    service_name: Option<String>,
    log_level: String,
    format: Format,
    otlp_endpoint: Option<String>,
    otlp_disabled: bool,
}

/// The view of an optional string.
pub open spec fn opt_view(o: Option<String>) -> Option<Seq<char>> {
    match o {
        Some(s) => Some(s@),
        None => None,
    }
}

fn default_log_level() -> (s: String)
    ensures
        s@ == "info"@,
{
    "info".to_owned()
}

impl TracingConfig {
    /// Logical service name, if configured.
    pub closed spec fn spec_service_name(&self) -> Option<Seq<char>> {
        opt_view(self.service_name)
    }

    /// Env-filter log level directive.
    pub closed spec fn spec_log_level(&self) -> Seq<char> {
        self.log_level@
    }

    /// Output format.
    pub closed spec fn spec_format(&self) -> Format {
        self.format
    }

    /// OTLP endpoint, if configured.
    pub closed spec fn spec_otlp_endpoint(&self) -> Option<Seq<char>> {
        opt_view(self.otlp_endpoint)
    }

    /// Whether OTLP export is disabled.
    pub closed spec fn spec_otlp_disabled(&self) -> bool {
        self.otlp_disabled
    }

    /// The service name. Only a configuration with a service name has one.
    pub fn service_name(&self) -> (s: &str)
        requires
            self.spec_service_name() is Some,
        ensures
            self.spec_service_name() == Some(s@),
    {
        match &self.service_name {
            Some(s) => s.as_str(),
            None => "",
        }
    }

    /// The service name, or `None` when none is configured.
    pub fn service_name_if_set(&self) -> (s: Option<&str>)
        ensures
            self.spec_service_name() == match s {
                Some(n) => Some(n@),
                None => None::<Seq<char>>,
            },
    {
        match &self.service_name {
            Some(n) => Some(n.as_str()),
            None => None,
        }
    }

    /// The env-filter log level directive.
    pub fn log_level(&self) -> (s: &str)
        ensures
            s@ == self.spec_log_level(),
    {
        self.log_level.as_str()
    }

    /// The output format.
    pub fn format(&self) -> (f: &Format)
        ensures
            *f == self.spec_format(),
    {
        &self.format
    }

    /// The OTLP endpoint, if configured.
    pub fn otlp_endpoint(&self) -> (e: Option<&str>)
        ensures
            self.spec_otlp_endpoint() == match e {
                Some(s) => Some(s@),
                None => None::<Seq<char>>,
            },
    {
        match &self.otlp_endpoint {
            Some(s) => Some(s.as_str()),
            None => None,
        }
    }

    /// Whether OTLP export is disabled.
    pub fn otlp_disabled(&self) -> (b: bool)
        ensures
            b == self.spec_otlp_disabled(),
    {
        self.otlp_disabled
    }

    /// Sets the service name.
    pub fn with_service_name(self, name: &str) -> (c: Self)
        ensures
            c.spec_service_name() == Some(name@),
            c.spec_log_level() == self.spec_log_level(),
            c.spec_format() == self.spec_format(),
            c.spec_otlp_endpoint() == self.spec_otlp_endpoint(),
            c.spec_otlp_disabled() == self.spec_otlp_disabled(),
    {
        let mut c = self;
        c.service_name = Some(name.to_owned());
        c
    }

    /// Sets the log level.
    pub fn with_log_level(self, level: &str) -> (c: Self)
        ensures
            c.spec_service_name() == self.spec_service_name(),
            c.spec_log_level() == level@,
            c.spec_format() == self.spec_format(),
            c.spec_otlp_endpoint() == self.spec_otlp_endpoint(),
            c.spec_otlp_disabled() == self.spec_otlp_disabled(),
    {
        let mut c = self;
        c.log_level = level.to_owned();
        c
    }

    /// Sets the output format.
    pub fn with_format(self, format: Format) -> (c: Self)
        ensures
            c.spec_service_name() == self.spec_service_name(),
            c.spec_log_level() == self.spec_log_level(),
            c.spec_format() == format,
            c.spec_otlp_endpoint() == self.spec_otlp_endpoint(),
            c.spec_otlp_disabled() == self.spec_otlp_disabled(),
    {
        let mut c = self;
        c.format = format;
        c
    }

    /// Sets the OTLP endpoint.
    pub fn with_otlp_endpoint(self, endpoint: &str) -> (c: Self)
        ensures
            c.spec_service_name() == self.spec_service_name(),
            c.spec_log_level() == self.spec_log_level(),
            c.spec_format() == self.spec_format(),
            c.spec_otlp_endpoint() == Some(endpoint@),
            c.spec_otlp_disabled() == self.spec_otlp_disabled(),
    {
        let mut c = self;
        c.otlp_endpoint = Some(endpoint.to_owned());
        c
    }

    /// Enables or disables OTLP export.
    pub fn with_otlp_disabled(self, disabled: bool) -> (c: Self)
        ensures
            c.spec_service_name() == self.spec_service_name(),
            c.spec_log_level() == self.spec_log_level(),
            c.spec_format() == self.spec_format(),
            c.spec_otlp_endpoint() == self.spec_otlp_endpoint(),
            c.spec_otlp_disabled() == disabled,
    {
        let mut c = self;
        c.otlp_disabled = disabled;
        c
    }

    /// Builds a configuration from its five settings.
    pub fn from_parts(
        service_name: Option<String>,
        log_level: String,
        format: Format,
        otlp_endpoint: Option<String>,
        otlp_disabled: bool,
    ) -> (c: Self)
        ensures
            c.spec_service_name() == opt_view(service_name),
            c.spec_log_level() == log_level@,
            c.spec_format() == format,
            c.spec_otlp_endpoint() == opt_view(otlp_endpoint),
            c.spec_otlp_disabled() == otlp_disabled,
    {
        TracingConfig { service_name, log_level, format, otlp_endpoint, otlp_disabled }
    }

    /// Maps the well-known OpenTelemetry variables onto the configuration:
    /// `otel_endpoint` (the value of `OTEL_EXPORTER_OTLP_ENDPOINT`, if set) is
    /// used only when no endpoint is configured; `otel_sdk_disabled` (the
    /// value of `OTEL_SDK_DISABLED`, if set) disables export exactly when it
    /// reads `true` in any ASCII case.
    pub fn apply_otel_env(self, otel_endpoint: Option<String>, otel_sdk_disabled: Option<String>) -> (c: Self)
        ensures
            c.spec_service_name() == self.spec_service_name(),
            c.spec_log_level() == self.spec_log_level(),
            c.spec_format() == self.spec_format(),
            c.spec_otlp_endpoint() == match self.spec_otlp_endpoint() {
                Some(e) => Some(e),
                None => opt_view(otel_endpoint),
            },
            c.spec_otlp_disabled() == match otel_sdk_disabled {
                Some(v) => eq_ascii_case_insensitive(v@, "true"@),
                None => self.spec_otlp_disabled(),
            },
            otel_sdk_disabled is Some && otel_sdk_disabled.unwrap()@.len() != 4 ==> !c.spec_otlp_disabled(),
    {
        proof {
            reveal_strlit("true");
        }
        let mut c = self;
        if c.otlp_endpoint.is_none() {
            c.otlp_endpoint = otel_endpoint;
        }
        match otel_sdk_disabled {
            Some(v) => {
                c.otlp_disabled = eq_ignore_ascii_case(v.as_str(), "true");
            },
            None => {},
        }
        c
    }
}

impl Default for TracingConfig {
    /// No service name, log level `info`, JSON output, no OTLP endpoint,
    /// export enabled.
    fn default() -> (c: Self)
        ensures
            c.spec_service_name() is None,
            c.spec_log_level() == "info"@,
            c.spec_format() == Format::Json,
            c.spec_otlp_endpoint() is None,
            !c.spec_otlp_disabled(),
    {
        TracingConfig {
            service_name: None,
            log_level: default_log_level(),
            format: Format::Json,
            otlp_endpoint: None,
            otlp_disabled: false,
        }
    }
}

} // verus!
