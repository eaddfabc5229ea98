[package]
name = "wtimer_lib"
version = "0.1.0"
edition = "2021"
publish = false

[dependencies]
chrono = { version = "0.4", default-features = false, features = ["std", "serde"] }
uuid = { version = "1", features = ["v7", "serde"] }
tracing = "0.1"
serde = { version = "1", features = ["derive"] }
postcard = { version = "1", features = ["use-std"] }
redb = "3"
axum = "0.8"
tokio = { version = "1", features = ["full"] }
tower-http = { version = "0.6", features = ["timeout", "trace", "cors"] }
tracing-subscriber = "0.3"
clap = { version = "4", features = ["derive"] }
anyhow = "1"
async-trait = "0.1"
thiserror = "2"

[dev-dependencies]
serde_json = "1"
