[package]
name = "game_server_architecture"
version = "0.1.0"
edition = "2021"
publish = false

[dependencies]
serde = { version = "=1.0.229", features = ["derive"] }
serde_json = "=1.0.151"
uuid = { version = "=1.27.0", features = ["v4", "serde"] }
tokio = { version = "=1.53.2", features = ["sync"] }
socketioxide = "=0.18.7"
