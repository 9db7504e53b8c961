[package]
name = "link_helm"
version = "0.1.0"
edition = "2021"
publish = false

[dependencies]
idna = "1"
url = "2"
serde = { version = "1", features = ["derive"] }
serde_json = "1"
