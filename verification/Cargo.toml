[package]
name = "obsidian-mcp"
version = "2.5.0"
edition = "2021"
publish = false

[dependencies]
bincode = { version = "=2.0.1", features = ["serde"] }
chrono = "=0.4.45"
fastembed = { version = "=7.5.0", default-features = false }
flate2 = "=1.1.10"
fs2 = "=0.4.3"
notify = "=8.2.1"
notify-debouncer-mini = "=0.7.0"
reqwest = { version = "=0.12.28", default-features = false, features = ["blocking", "json", "rustls-tls"] }
rmcp = { version = "=3.8.0", features = ["server"] }
schemars = "=1.2.3"
semver = "=1.0.28"
serde = { version = "=1.0.229", features = ["derive"] }
serde_json = "=1.0.154"
sha2 = "=0.10.9"
tantivy = "=0.27.0"
tar = "=0.4.46"
tempfile = "=3.27.0"
thiserror = "=2.0.21"
tokio = { version = "=1.54.1", features = ["fs", "io-util", "macros", "net", "process", "rt-multi-thread", "sync", "time"] }
tracing = "=0.1.44"
unicode-normalization = "=0.1.26"
walkdir = "=2.5.0"
zeroize = "=1.9.1"
zip = { version = "=9.2.2", default-features = false, features = ["deflate"] }
