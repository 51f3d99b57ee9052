[package]
name = "kode"
version = "0.1.0"
edition = "2021"
publish = false

[dependencies]
ropey = "=1.6.1"
serde = { version = "=1.0.229", features = ["derive"] }
serde_json = "=1.0.154"
toml = "=0.8.23"
clap = { version = "=4.6.7", features = ["derive"] }
tokio = { version = "=1.54.1", features = ["rt", "rt-multi-thread", "process", "io-util", "sync", "macros"] }
lsp-types = "=0.97.0"
thiserror = "=1.0.69"
dirs-next = "=2.0.0"
anyhow = "1"
tracing = "0.1"
tracing-subscriber = { version = "0.3", features = ["env-filter"] }
wasmtime = "25"
wasmtime-wasi = "25"
