[package]
name = "deskulpt"
version = "0.1.0"
edition = "2021"
publish = false

[dependencies]
anyhow = "=1.0.104"
async-compression = { version = "0.4", features = ["tokio", "gzip"] }
bitflags = "2"
copy_dir = "=0.1.3"
dunce = "=1.0.5"
libc = "0.2"
oci-client = { version = "=0.18.0", default-features = false, features = ["rustls-tls"] }
once_cell = "1"
parking_lot = "0.12"
reqwest = { version = "=0.13.5", default-features = false, features = ["rustls"] }
serde = { version = "=1.0.229", features = ["derive"] }
serde_json = "=1.0.154"
tokio = { version = "=1.54.1", features = ["sync", "rt", "time", "macros", "fs", "io-util"] }
tokio-tar = "0.3"
tokio-util = { version = "0.7", features = ["io"] }
tracing = "0.1"
tracing-appender = "0.2"
tracing-subscriber = { version = "0.3", features = ["fmt", "env-filter", "registry", "time"] }
url = "=2.5.8"
