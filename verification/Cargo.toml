[package]
name = "spoke-connect"
version = "0.1.0"
edition = "2021"
publish = false

[dependencies]
base64 = "=0.22.1"
getrandom = "=0.2.17"
ed25519-dalek = "=2.2.0"
serde = { version = "=1.0.229", features = ["derive"] }
serde_json = "=1.0.154"
tokio = { version = "=1.54.1", features = ["sync", "rt", "rt-multi-thread", "macros", "time"] }
async-trait = "=0.1.92"
futures = "=0.3.34"
thiserror = "=2.0.21"
chrono = "=0.4.45"
