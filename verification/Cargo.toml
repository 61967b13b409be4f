[package]
name = "leaderboard"
version = "0.1.0"
edition = "2021"
publish = false

[dependencies]
rand = "0.8"
regex = "1"
lazy_static = "1"
log = "0.4"
pretty_env_logger = "0.4"
async-trait = "0.1"
axum = "0.5"
tokio = { version = "1", features = ["macros", "rt-multi-thread"] }
tower-http = { version = "0.3", features = ["cors"] }
redis = { version = "0.21", features = ["tokio-comp"] }
serde = { version = "1", features = ["derive"] }
serde_json = "1"
