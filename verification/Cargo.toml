[package]
name = "p2p-transfer"
version = "0.1.0"
edition = "2021"
publish = false

[dependencies]
zstd = "0.13"
crc32fast = "1"
sha2 = "0.10"
rand = "0.8"
uuid = { version = "1", features = ["v4", "serde"] }
hex = "0.4"
serde = { version = "1", features = ["derive"] }
rmp-serde = "1"
serde_json = "1"
tokio = { version = "1", features = ["full"] }
clap = { version = "4", features = ["derive"] }
tracing = "0.1"
tracing-subscriber = { version = "0.3", features = ["env-filter"] }
directories = "5"
fs2 = "0.4"
thiserror = "1"
log = "0.4"
bytes = "1"
chrono = "0.4"
rustls = { version = "0.23", default-features = false, features = ["ring", "std"] }
