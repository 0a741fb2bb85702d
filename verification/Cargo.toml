[package]
name = "paykan"
version = "0.1.0"
edition = "2021"
publish = false

[dependencies]
chashmap = "2.2.2"
futures = "0.3"
tokio = { version = "1", features = ["io-util", "macros", "net", "rt-multi-thread"] }
