[package]
name = "sshx"
version = "0.1.0"
edition = "2021"
publish = false

[dependencies]
anyhow = "*"
chrono = { version = "*", features = ["serde"] }
colored = "*"
flate2 = "*"
futures-util = "*"
glob = "*"
lazy_static = "*"
serde = { version = "*", features = ["derive"] }
serde_json = "*"
tabled = "*"
tokio = { version = "*", features = ["full"] }
tokio-tungstenite = "*"
tracing = "*"
