[package]
name = "pheno-tracing"
version = "0.3.0-pre.0"
edition = "2021"
publish = false

[dependencies]
async-trait = "0.1"
figment = { version = "0.10", features = ["env"] }
opentelemetry = "0.28"
opentelemetry_sdk = "0.28"
opentelemetry-otlp = "0.28"
proptest = "1"
serde = { version = "1", features = ["derive"] }
thiserror = "1"
tracing = "0.1"
tracing-opentelemetry = "0.29"
tracing-subscriber = { version = "0.3", features = ["env-filter", "json"] }
