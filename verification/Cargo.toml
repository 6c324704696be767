[package]
name = "cache_hit_rate"
version = "0.1.0"
edition = "2021"
publish = false

[dependencies]
prometheus = { version = "0.13", default-features = false }
tracing = "0.1"
