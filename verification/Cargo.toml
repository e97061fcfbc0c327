[package]
name = "jobq"
version = "0.1.0"
edition = "2021"
publish = false

[dependencies]
tokio = { version = "*", features = ["rt-multi-thread", "time", "sync"] }
uuid = { version = "*", features = ["v4"] }
