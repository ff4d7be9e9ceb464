[package]
name = "skillguard"
version = "0.1.0"
edition = "2021"
publish = false

[dependencies]
sha2 = "0.10"
semver = "1"
serde = { version = "1", features = ["derive"] }
serde_json = "1"
serde_yaml = "0.9"
anyhow = "1"
thiserror = "1"
clap = { version = "4", features = ["derive"] }
colored = "2"
comfy-table = "7"
flate2 = "1"
tar = "0.4"
tempfile = "3"
reqwest = { version = "0.12", default-features = false }
tokio = { version = "1", features = ["rt-multi-thread", "macros"] }
tracing = "0.1"
tracing-subscriber = { version = "0.3", features = ["env-filter"] }
wasmtime = "24"
wasmtime-wasi = "24"
