[package]
name = "reql"
version = "0.1.0"
edition = "2021"
publish = false

[dependencies]
byteorder = "1"
ordermap = "0.2"
uuid = { version = "1", features = ["v4"] }
futures = "0.1"
parking_lot = "0.12"
r2d2 = "0.7"
serde = "1"
tokio-core = "0.1"
