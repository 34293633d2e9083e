[package]
name = "uf_notifications"
version = "0.1.0"
edition = "2021"
publish = false

[dependencies]
chrono = "0.4"
uuid = { version = "1", features = ["v4"] }
serde = { version = "1", features = ["derive"] }
tracing = "0.1"
leptos = { version = "0.8", default-features = false }

[dev-dependencies]
serde_json = "1"
