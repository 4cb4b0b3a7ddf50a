[package]
name = "platform_rs"
version = "0.1.0"
edition = "2021"
publish = false

[dependencies]
axum = "0.6"
axum-login = { version = "0.5", features = ["postgres"] }
bcrypt = "0.15"
bincode = "1"
chrono = "0.4"
dotenv = "0.15"
once_cell = "1"
opentelemetry = { version = "0.19", features = ["rt-tokio"] }
opentelemetry-otlp = "0.12"
opentelemetry-semantic-conventions = "0.11"
rust-i18n = "2"
sailfish = "0.6"
serde = { version = "1", features = ["derive"] }
sqlx = { version = "0.6", features = ["postgres", "runtime-tokio-rustls"] }
tokio = { version = "1", features = ["full"] }
tower = { version = "0.4", features = ["limit"] }
tower-http = { version = "0.4", features = ["compression-full"] }
tower-request-id = "0.2"
tracing = "0.1"
