[package]
name = "canal"
version = "0.1.0"
edition = "2021"
publish = false

[dependencies]
async-trait = "*"
bytes = "*"
tokio = { version = "*", features = ["rt-multi-thread", "sync", "time", "macros"] }
tokio-util = "*"
