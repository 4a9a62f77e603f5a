[package]
name = "tabletop"
version = "0.1.0"
edition = "2021"
publish = false

[dependencies]
rand = "0.9"
regex = "1"
serde = { version = "1", features = ["derive"] }
serde_json = "1"
axum = "0.8"
tokio = { version = "1", features = ["macros", "rt-multi-thread", "net"] }
tower-http = { version = "*", features = ["trace"] }
tracing = "0.1"
tracing-subscriber = "0.3"
