[package]
name = "klawply"
version = "0.1.0"
edition = "2021"
publish = false

[dependencies]
base64 = "0.22"
chromiumoxide = { version = "0.7", default-features = false, features = ["tokio-runtime"] }
futures = "0.3"
rand = "0.8"
ratatui = "0.29"
reqwest = { version = "0.12", default-features = false, features = ["blocking", "json", "rustls-tls"] }
serde = { version = "1", features = ["derive"] }
serde_json = "1"
sha2 = "0.10"
tokio = { version = "1", features = ["rt-multi-thread", "sync", "time", "macros"] }
urlencoding = "2"
webbrowser = "1"
