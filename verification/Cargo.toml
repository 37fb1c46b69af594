[package]
name = "poll_backend"
version = "0.1.0"
edition = "2021"
publish = false

[dependencies]
argon2 = "=0.6.0"
password-hash = "=0.6.1"
jsonwebtoken = { version = "=11.1.0", features = ["rust_crypto"] }
serde = { version = "=1.0.229", features = ["derive"] }
serde_json = "=1.0.151"
chrono = "=0.4.45"
sqlx = { version = "=0.9.0", default-features = false, features = ["runtime-tokio", "postgres", "macros"] }
actix-web = { version = "=4.15.0", default-features = false, features = ["macros"] }
actix-cors = "=0.7.2"
