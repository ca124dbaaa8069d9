[package]
name = "goose_services"
version = "0.1.0"
edition = "2021"
publish = false

[dependencies]
base64 = "0.22"
serde_json = "1"
serde = { version = "1", features = ["derive"] }
schemars = "0.8"
reqwest = { version = "0.12", default-features = false, features = ["json", "multipart", "rustls-tls"] }
anyhow = "1"
uuid = { version = "1", features = ["v4"] }
