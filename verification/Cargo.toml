[package]
name = "mini_tokio"
version = "0.1.0"
edition = "2021"
publish = false

[dependencies]
tokio = { version = "1", features = ["sync", "macros", "rt-multi-thread", "time"] }
futures = "0.3"
