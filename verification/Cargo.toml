[package]
name = "booster"
version = "0.1.0"
edition = "2021"
publish = false

[dependencies]
anyhow = "=1.0.104"
axum = "=0.8.9"
base64 = "=0.22.1"
bb8-postgres = "=0.9.0"
bb8-redis = "=0.26.0"
notify = "=8.2.0"
serde = { version = "=1.0.229", features = ["derive"] }
serde_json = "=1.0.151"
tokio = { version = "=1.53.2", features = ["rt-multi-thread", "macros", "net", "sync", "time"] }
tokio-postgres = { version = "=0.7.18", features = ["with-uuid-1", "with-serde_json-1"] }
uuid = { version = "=1.27.0", features = ["v7"] }
wasmtime = "=48.0.5"
wasmtime-wasi = "=48.0.5"
