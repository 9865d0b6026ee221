[package]
name = "bifrost"
version = "0.1.0"
edition = "2021"
publish = false

[dependencies]
bytes = "1"
parking_lot = "0.12"
futures = "0.3"
tokio = { version = "1", features = ["net", "rt-multi-thread", "macros", "io-util"] }
tokio-util = { version = "0.7", features = ["codec"] }
