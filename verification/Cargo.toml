[package]
name = "udp_demux"
version = "0.1.0"
edition = "2021"
publish = false

[dependencies]
ahash = "*"
anyhow = "*"
futures-util = "*"
log = "*"
parking_lot = "*"
tokio = { version = "*", features = ["net", "time", "sync", "rt", "io-util"] }
tracing = "*"
url = "*"
