[package]
name = "merco_auth"
version = "0.1.0"
edition = "2021"
publish = false

[dependencies]
argon2 = "=0.5.3"
chrono = "=0.4.45"
jsonwebtoken = "=9.3.1"
rand = "=0.8.8"
sha2 = "=0.10.9"
serde_json = "=1.0.151"
totp-rs = { version = "=5.7.2", features = ["otpauth"] }
uuid = { version = "=1.27.0", features = ["v4"] }
serde = { version = "=1.0.229", features = ["derive"] }
axum = "=0.7.9"
tokio = { version = "=1.53.2", features = ["macros", "rt-multi-thread"] }
