[package]
name = "newsletter"
version = "0.1.0"
edition = "2021"
publish = false

[dependencies]
rand = "0.9"
uuid = { version = "1", features = ["v4"] }
chrono = "0.4"
axum = "0.8"
tokio = { version = "1", features = ["macros", "rt-multi-thread", "net", "time"] }
sqlx = { version = "0.8", default-features = false, features = ["runtime-tokio", "sqlite"] }
serde = { version = "1", features = ["derive"] }
config = "*"
secrecy = "*"
anyhow = "1"
reqwest = { version = "0.12", default-features = false, features = ["json"] }
serde_json = "1"
tracing = "0.1"
thiserror = "*"
