[package]
name = "rustmas"
version = "0.1.0"
edition = "2021"
publish = false

[dependencies]
url = "2"
tokio = { version = "1", features = ["rt-multi-thread", "macros", "net", "sync", "time", "io-util"] }
async-trait = "0.1"
serde = { version = "1", features = ["derive"] }
serde_json = "1"
chrono = "0.4"
thiserror = "1"
log = "0.4"
csv = "1"
rand = "0.8"
futures-util = "0.3"
statistical = "1"
itertools = "0.13"
reqwest = { version = "0.12", default-features = false }
serialport = { version = "4", default-features = false }
