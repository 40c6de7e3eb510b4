[package]
name = "plc4rs"
version = "0.1.0"
edition = "2021"
publish = false

[dependencies]
nom = "7"
thiserror = "1"
async-trait = "0.1"
tracing = "0.1"
tokio = { version = "1", features = ["net", "io-util", "time"] }
