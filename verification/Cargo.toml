[package]
name = "rari_server"
version = "0.1.0"
edition = "2021"
publish = false

[dependencies]
axum = { version = "*", default-features = false, features = ["http1", "tokio"] }
backtrace = "*"
base64 = "*"
dashmap = "*"
futures = "*"
jemalloc_pprof = { version = "*", features = ["symbolize"] }
lru = "*"
parking_lot = "*"
reqwest = { version = "*", default-features = false }
rustc-hash = "*"
serde = { version = "*", features = ["derive"] }
serde_json = "*"
tikv-jemalloc-ctl = { version = "*", features = ["stats"] }
tokio = { version = "*", features = ["rt", "sync", "time"] }
tokio-tungstenite = { version = "*", features = ["rustls-tls-webpki-roots"] }
tracing = "*"
url = "*"
