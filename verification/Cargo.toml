[package]
name = "harbr_router"
version = "0.1.0"
edition = "2021"
publish = false

[dependencies]
ahash = "0.8"
async-trait = "0.1"
bytes = "1"
chrono = "0.4"
clap = "4"
crossbeam-queue = "0.3"
dashmap = "5"
hyper = { version = "0.14", features = ["client", "server", "http1", "http2", "tcp"] }
hyper-rustls = { version = "0.24", default-features = false, features = ["http1", "http2", "native-tokio", "tls12"] }
libc = "0.2"
libloading = "0.8"
metrics = "0.21"
metrics-exporter-prometheus = { version = "0.12", default-features = false }
num_cpus = "1"
once_cell = "1"
parking_lot = "0.12"
procfs = "0.16"
rand = "0.8"
reqwest = { version = "0.11", default-features = false, features = ["json"] }
serde = { version = "1", features = ["derive"] }
serde_json = "1"
serde_yaml = "0.9"
sha2 = "0.10"
tokio = { version = "1", features = ["full"] }
toml = "0.8"
tracing = "0.1"
tracing-subscriber = { version = "0.3", features = ["env-filter"] }
urlencoding = "2"
uuid = { version = "1", features = ["v4"] }
warp = { version = "0.3", default-features = false }
