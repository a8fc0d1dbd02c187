[package]
name = "ai00_server"
version = "0.1.0"
edition = "2021"
publish = false

[dependencies]
clap = { version = "=4.6.7", features = ["derive"] }
flume = "=0.12.0"
futures-util = "=0.3.34"
log = "=0.4.34"
salvo = { version = "=0.96.0", default-features = false, features = ["acme", "affix-state", "aws-lc-rs", "cors", "http1", "http2", "logging", "quinn", "rustls", "serve-static", "server", "sse"] }
serde = { version = "=1.0.229", features = ["derive"] }
serde_json = "=1.0.154"
simple_logger = "=5.2.0"
tempfile = "=3.27.0"
tokio = { version = "=1.54.1", features = ["full"] }
toml = "=1.1.8"
zip = { version = "=9.1.0", default-features = false, features = ["deflate"] }
