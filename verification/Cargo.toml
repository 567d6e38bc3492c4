[package]
name = "static_metric"
version = "0.1.0"
edition = "2021"
publish = false

[dependencies]
proc-macro2 = "=1.0.107"
quote = "=1.0.47"

[dev-dependencies]
prometheus = { version = "=0.13.4", default-features = false }
syn = { version = "=2.0.119", features = ["full"] }
