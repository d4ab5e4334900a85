[package]
name = "webhook_events"
version = "0.1.0"
edition = "2021"
publish = false

[dependencies]
serde = { version = "=1.0.229", features = ["derive"] }
time = { version = "=0.3.55", features = ["serde", "formatting", "parsing"] }
utoipa = "=6.0.0"
