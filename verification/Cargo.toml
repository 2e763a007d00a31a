[package]
name = "spectre-core"
version = "0.1.0"
edition = "2021"
publish = false

[dependencies]
rand = "0.8"
serde = { version = "1", features = ["derive"] }
serde_json = "1"
chrono = "0.4"
axum = "0.7"
tokio = { version = "1", features = ["rt-multi-thread", "net", "sync", "macros"] }
winreg = "*"
runas = "*"
