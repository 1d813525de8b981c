[package]
name = "room_relay"
version = "0.1.0"
edition = "2021"
publish = false

[dependencies]
async-lock = "3"
async-trait = "0.1"
axum = "0.8"
clap = { version = "4", features = ["derive"] }
dashmap = "6"
futures-util = "0.3"
mini-moka = "0.10"
nanoid = "0.4"
rand = "0.9"
reqwest = { version = "0.12", default-features = false, features = ["json"] }
serde = { version = "1", features = ["derive"] }
serde_json = "1"
termios = "0.3"
tokio = { version = "1", features = ["full"] }
tokio-tungstenite = "0.26"
uuid = { version = "1", features = ["v4"] }
