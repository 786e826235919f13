[package]
name = "hand_score"
version = "0.1.0"
edition = "2021"
publish = false

[dependencies]
remotro = "*"
tokio = { version = "1", features = ["full"] }
