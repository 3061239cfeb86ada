# pheno-tracing

A port-driven distributed tracing substrate, written in Verus.

`src/` is the verified library:

- `sampling` — span contexts and the W3C sampled bit, the `Sampler` port,
  the constant and parent-based samplers, the rule-list `TailSampler`, the
  sliding outcome window of an error-rate tail sampler, and the trace-id hash.
- `cardinality_cap` — first-N-wins cardinality capping of span attributes,
  specified pair by pair over a registry of winners per attribute name, with
  its laws (bounded, sticky, per-name, idempotent).
- `attributes` — span attributes as an ordered list of `(name, value)` pairs.
- `config`, `env` — configuration resolved from the values the environment
  holds; `port`, `otlp`, `compat` — the data model and error types.

`app/` holds what talks to the outside world: subscriber installation, OTLP
exporter wiring, reading the environment and config sources, the async
`TracePort`, serde and proptest support, and the samplers that run on
floating-point rates and wall-clock time (rate limiting, ratio gating,
error-rate arming), which delegate their integer parts to the library.
