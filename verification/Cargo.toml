[package]
name = "multiplayer_fps"
version = "0.1.0"
edition = "2021"
publish = false

[dependencies]
serde = { version = "1", features = ["derive"] }
serde_json = "1"
tokio = { version = "1", features = ["net", "time", "rt-multi-thread", "macros", "sync"] }
clap = { version = "4", features = ["derive"] }
