[package]
name = "ecosystem"
version = "0.1.0"
edition = "2021"
publish = false

[dependencies]
anyhow = "1"
serde = { version = "1", features = ["derive"] }
strum = { version = "*", features = ["derive"] }
thiserror = "*"
tokio = { version = "1", features = ["fs", "macros", "rt-multi-thread"] }
toml = "*"
tracing = "0.1"
tracing-appender = "0.2"
tracing-subscriber = { version = "0.3", features = ["env-filter", "json"] }
