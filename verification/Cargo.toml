[package]
name = "payment_engine"
version = "0.1.0"
edition = "2021"
publish = false

[dependencies]
chrono = "0.4"
clap = "3.2"
csv = "1"
flate2 = "1"
rand = "0.8"
redis = "0.32"
rmp-serde = "1"
rocket = { version = "0.5", features = ["json"] }
rusoto_core = "0.48"
rusoto_credential = "0.48"
serde = { version = "1", features = ["derive"] }
serde_json = "1"
serde_yaml = "0.8"
simple-error = "0.2"
slog = "2"
slog-async = "2"
slog-json = "2"
slog-term = "2"
termios = "0.3"
tokio = { version = "1", features = ["full"] }
