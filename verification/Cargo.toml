[package]
name = "at_gateway"
version = "0.1.0"
edition = "2021"
publish = false

[dependencies]
async-trait = "0.1"
axum = "0.7"
chrono = "0.4"
futures-util = "0.3"
mime_guess = "=2.0.5"
rust-embed = { version = "8", features = ["interpolate-folder-path"] }
serde = { version = "1", features = ["derive"] }
serde_json = "=1.0.154"
tokio = { version = "1", features = ["full"] }
tokio-serial = { version = "5.4", default-features = false }
tokio-tungstenite = "0.24"
