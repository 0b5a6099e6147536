[package]
name = "tcp_proxy"
version = "0.1.0"
edition = "2021"
publish = false

[dependencies]
chrono = "*"
java-properties = "*"
lazy_static = "*"
pnet = "*"
rayon = "*"
serde = { version = "*", features = ["derive"] }
serde_json = "*"
slog = "*"
slog-async = "*"
slog-json = "*"
slog-term = "*"
uuid = { version = "*", features = ["v4"] }
