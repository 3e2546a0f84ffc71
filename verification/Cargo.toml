[package]
name = "cargo_driver"
version = "0.1.0"
edition = "2021"
publish = false

[dependencies]
anyhow = "1"
camino = "1"
cargo_metadata = "0.18"
serde_json = "1"
tracing = "0.1"
