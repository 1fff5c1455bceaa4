[package]
name = "kb"
version = "0.1.0"
edition = "2021"
publish = false

[dependencies]
sha2 = "=0.10.9"
unicode-normalization = "=0.1.26"
ulid = { version = "=1.2.1", features = ["serde"] }
serde = { version = "=1.0.229", features = ["derive"] }
serde_json = "=1.0.154"
chrono = { version = "=0.4.45", features = ["serde"] }
schemars = { version = "=1.2.3", features = ["chrono04"] }
axum = "=0.8.9"
tokio = { version = "=1.54.1", features = ["full"] }
tower-http = { version = "=0.6.11", features = ["cors", "trace"] }
tracing = "=0.1.44"
tracing-subscriber = { version = "=0.3.23", features = ["env-filter"] }
anyhow = "=1.0.104"
thiserror = "=2.0.21"
rusqlite = { version = "*", features = ["bundled", "load_extension"] }
r2d2 = "=0.8.10"
r2d2_sqlite = "0.35"
refinery = { version = "=0.10.0", features = ["rusqlite"] }
rmcp = { version = "=3.8.0", features = ["transport-streamable-http-server"] }
clap = { version = "=4.6.7", features = ["derive", "env"] }
reqwest = { version = "=0.13.5", default-features = false, features = ["json"] }
dirs = "=7.0.0"
toml = "=1.1.8"
