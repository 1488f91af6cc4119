[package]
name = "wotoha"
version = "0.1.0"
edition = "2021"
publish = false

[dependencies]
async-trait = "0.1"
ebur128 = "0.1"
reqwest = { version = "0.12", default-features = false }
serde = { version = "1", features = ["derive"] }
serde_json = "1"
serenity = { version = "0.12", default-features = false, features = ["builder", "cache", "client", "gateway", "http", "model", "utils", "rustls_backend"] }
sha2 = "0.10"
songbird = { version = "0.5", default-features = false, features = ["gateway", "serenity"] }
tokio = { version = "1", features = ["macros", "rt", "rt-multi-thread", "signal", "sync", "time"] }
tracing = "0.1"
tracing-appender = "0.2"
tracing-subscriber = { version = "0.3", features = ["env-filter"] }
