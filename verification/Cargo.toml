[package]
name = "fuso"
version = "0.1.0"
edition = "2021"
publish = false

[dependencies]
rc4 = "0.1"
bincode = "1"
serde = { version = "1", features = ["derive"] }
parking_lot = "0.12"
tokio = { version = "1", features = ["rt", "rt-multi-thread", "net", "time", "macros", "io-util", "sync"] }
futures = "0.3"
rand = "0.8"
log = "0.4"
