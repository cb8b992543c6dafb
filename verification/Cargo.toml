[package]
name = "sixtysix"
version = "0.1.0"
edition = "2021"
publish = false

[dependencies]
axum = "=0.7.9"
chrono = { version = "=0.4.45", features = ["serde"] }
hex = "=0.4.3"
rand = "=0.8.8"
rand_chacha = "=0.3.1"
serde = { version = "=1.0.229", features = ["derive"] }
serde_json = "=1.0.154"
tokio = { version = "=1.54.1", features = ["rt-multi-thread", "net"] }
