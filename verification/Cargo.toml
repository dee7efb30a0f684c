[package]
name = "mcpg_runtime"
version = "0.1.0"
edition = "2021"
publish = false

[dependencies]
anyhow = "1"
arc-swap = "1"
async-trait = "0.1"
base64 = "0.22"
blake3 = { version = "1", default-features = false, features = ["std", "pure"] }
bytes = "1"
cel = "*"
chrono = { version = "0.4", features = ["serde"] }
dashmap = "6"
hex = "0.4"
http = "1"
jsonwebtoken = { version = "10", default-features = false, features = ["rust_crypto"] }
metrics = "0.24"
serde = { version = "1", features = ["derive"] }
serde_json = "1"
tokio = { version = "1", features = ["rt", "rt-multi-thread", "sync", "time", "macros"] }
tracing = "0.1"
uuid = { version = "1", features = ["v4", "serde"] }
