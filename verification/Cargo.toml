[package]
name = "moonclient"
version = "0.1.0"
edition = "2021"
publish = false

[dependencies]
async-trait = "=0.1.92"
bytes = "=1.12.1"
chrono = "=0.4.45"
governor = "=0.10.4"
http = "=1.5.0"
log = { version = "=0.4.35", features = ["std"] }
quick-xml = { version = "=0.42.0", features = ["serialize"] }
redis = { version = "=1.8.1", features = ["aio", "tokio-comp", "connection-manager", "script"] }
reqwest = { version = "=0.13.5", features = ["json"] }
reqwest-middleware = "=0.5.2"
reqwest-retry = "=0.9.1"
reqwest-tracing = "=0.7.1"
serde = { version = "=1.0.229", features = ["derive"] }
serde_json = "=1.0.154"
tokio = { version = "=1.54.1", features = ["fs", "io-util", "macros", "rt-multi-thread", "time"] }
url = "=2.5.8"
