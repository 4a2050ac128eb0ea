[package]
name = "openc3_cosmos_app"
version = "0.1.0"
edition = "2021"
publish = false

[dependencies]
anyhow = "1"
base64 = "0.22"
iroh = { version = "*", default-features = false }
serde = { version = "1", features = ["derive"] }
serde_json = "1"
