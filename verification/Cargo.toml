[package]
name = "dspy_rust"
version = "0.1.0"
edition = "2021"
publish = false

[dependencies]
serde = { version = "=1.0.229", features = ["derive"] }
serde_json = "=1.0.154"
regex = "=1.13.1"
anyhow = "=1.0.104"
async-trait = "=0.1.92"
tokio = { version = "=1.54.1", features = ["rt-multi-thread", "macros", "sync"] }
tokio-stream = "=0.1.19"
futures = "=0.3.34"
moka = { version = "=0.12.16", features = ["future"] }
rand = "=0.9.5"
tracing = "=0.1.44"
indicatif = "=0.17.11"
reqwest = { version = "=0.12.28", default-features = false, features = ["json", "rustls-tls"] }
async-openai = "=0.29.6"
