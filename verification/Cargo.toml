[package]
name = "not_redis"
version = "0.1.0"
edition = "2021"
publish = false

[dependencies]
dashmap = "*"
rustc-hash = "*"
thiserror = "*"
tokio = { version = "1", features = ["rt", "rt-multi-thread", "macros", "time", "sync"] }
