[package]
name = "fjage_rs"
version = "0.1.0"
edition = "2021"
publish = false

[dependencies]
base64 = "*"
uuid = { version = "*", features = ["v4"] }
serde_json = "*"
tokio = { version = "*", features = ["rt-multi-thread", "time", "sync", "net", "io-util", "macros"] }
tokio-serial = "*"
