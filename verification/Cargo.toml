[package]
name = "latency_bridge"
version = "0.1.0"
edition = "2021"
publish = false

[dependencies]
rosc = "*"
tokio = { version = "*", features = ["rt-multi-thread", "macros", "net", "time", "io-util", "sync"] }
