[package]
name = "clima_bot"
version = "0.1.0"
edition = "2021"
publish = false

[dependencies]
env_logger = "0.11"
serde = { version = "1", features = ["derive"] }
serenity = "0.12"
tokio = { version = "1", features = ["macros", "rt-multi-thread"] }
toml = "0.8"
ureq = { version = "2", features = ["json"] }
