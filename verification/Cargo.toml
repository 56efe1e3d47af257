[package]
name = "rgb_log"
version = "0.1.0"
edition = "2021"
publish = false

[dependencies]
chrono = "*"
crossterm = "*"
tokio = { version = "*", features = ["rt-multi-thread", "fs", "io-util", "sync", "time", "macros"] }
