[package]
name = "forum"
version = "0.1.0"
edition = "2021"
publish = false

[dependencies]
axum = { version = "0.6", features = ["headers"] }
chrono = { version = "0.4", features = ["serde"] }
http = "0.2"
rand = "0.8"
rust-argon2 = "1"
serde = { version = "1", features = ["derive"] }
serde_json = "1"
tokio = { version = "1", features = ["full"] }
tower = { version = "0.4", features = ["util"] }
tower-http = { version = "0.4", features = ["fs"] }
uuid = { version = "1", features = ["v4", "serde"] }
