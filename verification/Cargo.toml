[package]
name = "wotto"
version = "0.1.0"
edition = "2021"
publish = false

[dependencies]
anyhow = "=1.0.104"
futures = "=0.3.34"
irc = { version = "=1.1.0", default-features = false }
leaky-bucket = "=1.1.2"
parking_lot = "=0.12.5"
reqwest = { version = "=0.12.28", default-features = false, features = ["json", "rustls-tls"] }
rustyline = { version = "=19.0.0", default-features = false }
serde_json = "=1.0.154"
thiserror = "=1.0.69"
tokio = { version = "=1.54.1", features = ["rt-multi-thread", "macros", "sync", "time", "fs", "signal"] }
tracing = "=0.1.44"
url = "=2.5.8"
warp = { version = "=0.3.7", default-features = false }
wasmtime = { version = "=45.0.3", default-features = false, features = ["async", "cranelift", "runtime", "wat"] }
