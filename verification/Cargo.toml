[package]
name = "jsonrpc_client"
version = "0.1.0"
edition = "2021"
publish = false

[dependencies]
anyhow = "1"
bytes = "1"
clap = { version = "4", features = ["derive"] }
dashmap = "=6.2.1"
futures = "0.3"
reqwest = { version = "0.13", default-features = false }
serde = { version = "=1.0.229", features = ["derive"] }
serde_json = { version = "=1.0.154", features = ["raw_value"] }
smallvec = { version = "=1.16.4", features = ["write"] }
stream-tungstenite = { version = "=0.6.1", default-features = false, features = ["rustls-tls-webpki-roots"] }
thiserror = "2"
tokio = { version = "1", features = ["full"] }
tracing = "0.1"
tracing-subscriber = { version = "0.3", features = ["env-filter"] }
