[package]
name = "omg_core"
version = "0.1.0"
edition = "2021"
publish = false

[dependencies]
async-broadcast = "0.7"
async-channel = "2"
futures-lite = "2"
serde = { version = "1", features = ["derive"] }
serde_json = "1"
sqlite = "*"
thiserror = "*"
tokio = { version = "1", default-features = false, features = ["sync"] }
