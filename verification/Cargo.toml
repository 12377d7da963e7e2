[package]
name = "ses_mailer"
version = "0.1.0"
edition = "2021"
publish = false

[dependencies]
chrono = "=0.4.45"
serde = { version = "=1.0.229", features = ["derive"] }
serde_json = "=1.0.154"
axum = "=0.8.9"
tokio = { version = "=1.54.1", features = ["full"] }
sqlx = { version = "=0.8.6", default-features = false, features = ["sqlite", "runtime-tokio"] }
aws-config = "=1.13.0"
aws-sdk-sesv2 = "=1.145.0"
tower-http = { version = "=0.6.11", features = ["trace"] }
tracing = "=0.1.44"
tracing-subscriber = "=0.3.23"
dotenv = "=0.15.0"
once_cell = "=1.21.4"
futures = "=0.3.34"
sentry = { version = "=0.49.5", default-features = false }
jsonwebtoken = "9"

[dev-dependencies]
regex = "=1.13.1"
