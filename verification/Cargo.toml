[package]
name = "rust_atomics"
version = "0.1.0"
edition = "2021"
publish = false

[dependencies]
atomic-wait = "1"
rand = "0.9"
tracing = "0.1"
tracing-subscriber = "0.3"
