[package]
name = "webcore"
version = "0.1.0"
edition = "2021"
publish = false

[dependencies]
serde_json = "*"
axum = "*"
tokio = { version = "*", features = ["macros", "rt-multi-thread", "net"] }
bb8 = "*"
bb8-postgres = "*"
tokio-postgres = "*"
tower-http = { version = "*", features = ["fs", "trace"] }
serde = { version = "*", features = ["derive"] }
tracing = "*"
tracing-subscriber = "*"
