[package]
name = "taskchampion_swift"
version = "0.1.0"
edition = "2021"
publish = false

[dependencies]
taskchampion = "*"
tokio = { version = "1", features = ["rt-multi-thread"] }
async-trait = "*"
swift-bridge = "*"
