[package]
name = "asterisk_bridge"
version = "0.1.0"
edition = "2021"
publish = false

[dependencies]
md5 = "0.7"
tracing = "0.1"
uuid = { version = "1", features = ["v4"] }
