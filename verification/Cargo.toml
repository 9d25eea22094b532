[package]
name = "artel_fs"
version = "0.1.0"
edition = "2021"
publish = false

[dependencies]
blake3 = "1"
bytes = "1"
futures-util = "0.3"
globset = "0.4"
iroh-base = { version = "*", default-features = false, features = ["key"] }
n0-error = "*"
notify = "8"
notify-debouncer-full = "*"
postcard = { version = "1", features = ["use-std"] }
rand = "*"
serde = { version = "1", features = ["derive"] }
thiserror = "2"
tokio = { version = "1", features = ["fs", "macros", "rt", "sync", "time"] }
tokio-util = "0.7"
tracing = "0.1"
unicode-normalization = "0.1"
walkdir = "2"

[dev-dependencies]
tempfile = "3"
