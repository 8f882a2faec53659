[package]
name = "lanjing"
version = "0.1.0"
edition = "2021"
publish = false

[dependencies]
blake3 = "1"
url = "2"
uuid = { version = "1", features = ["v4"] }
serde = { version = "1", features = ["derive"] }
serde_json = "1"
tokio = { version = "1", features = ["rt-multi-thread", "macros", "time", "sync"] }
reqwest = { version = "0.12", default-features = false, features = ["rustls-tls"] }
hickory-resolver = "*"
rquickjs = "*"
futures = "0.3"
async-trait = "0.1"
thiserror = "2"
tracing = "0.1"
