[package]
name = "torshield"
version = "0.1.0"
edition = "2021"
publish = false

[dependencies]
hmac = "=0.13.0"
sha2 = "=0.11.1"
getrandom = "=0.3.4"
serde = { version = "=1.0.229", features = ["derive"] }
serde_json = "=1.0.154"
reqwest = { version = "=0.12.28", default-features = false, features = ["socks", "rustls-tls"] }
tokio = { version = "=1.54.1", features = ["time", "sync", "macros", "rt-multi-thread"] }
tempfile = "=3.27.0"
security-framework = "=3.7.0"
