[package]
name = "hoarder"
version = "0.1.0"
edition = "2021"
publish = false

[dependencies]
base64 = "=0.21.7"
chrono = { version = "=0.4.45", default-features = false, features = ["std"] }
envy = "=0.4.2"
indexmap = "=2.14.2"
serde = { version = "=1.0.229", features = ["derive"] }
serde_json = "=1.0.154"
thiserror = "=1.0.69"
uuid = "=1.29.0"
webp = { version = "0.3", default-features = false }
