[package]
name = "musicfs"
version = "0.1.0"
edition = "2021"
publish = false

[dependencies]
lofty = "=0.22.4"
xxhash-rust = { version = "=0.8.19", features = ["xxh64"] }
hmac = "=0.12.1"
sha2 = "=0.10.9"
hex = "=0.4.3"
serde = { version = "=1.0.229", features = ["derive"] }
serde_json = "=1.0.154"
toml = "=0.8.23"
rusqlite = { version = "=0.31.0", features = ["bundled"] }
tokio = { version = "=1.54.1", features = ["rt-multi-thread", "macros", "fs", "time", "sync"] }
symphonia = "=0.5.5"
semver = "1"
csv = "1"
clap = { version = "4", features = ["derive"] }
notify = "6"

[dev-dependencies]
