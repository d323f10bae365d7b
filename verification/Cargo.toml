[package]
name = "gateway_sdk"
version = "0.1.0"
edition = "2021"
publish = false

[dependencies]
anyhow = "=1.0.104"
async-trait = "=0.1.92"
axum = { version = "=0.8.9", features = ["ws"] }
bytes = "=1.12.1"
futures-core = "=0.3.34"
futures-util = { version = "=0.3.34", features = ["sink"] }
http = "=1.5.0"
serde = { version = "=1.0.229", features = ["derive"] }
serde_json = "=1.0.154"
thiserror = "=2.0.21"
time = "=0.3.55"
tracing = "=0.1.44"
uuid = { version = "=1.29.0", features = ["serde", "v4"] }
