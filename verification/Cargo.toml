[package]
name = "bot_azalea"
version = "0.1.0"
edition = "2021"
publish = false

[dependencies]
azalea = "0.16.0"
azalea-chat = "0.16.0"
indexmap = "2"
parking_lot = "0.12"
regex = "1"
serde_json = "1"
simdnbt = "0.10"
tokio = { version = "1", features = ["io-util", "macros", "net", "rt", "sync", "time"] }
tracing = "0.1"
tracing-subscriber = "0.3"
