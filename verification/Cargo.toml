[package]
name = "organum"
version = "0.1.0"
edition = "2021"
publish = false

[dependencies]
zstd = "*"
anyhow = "*"
serde = { version = "*", features = ["derive"] }
serde_yaml = "*"
serde_json = "*"
tracing = "*"
tracing-subscriber = { version = "*", features = ["env-filter", "json"] }

[dev-dependencies]
zstd = "*"
