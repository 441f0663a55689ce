[package]
name = "bazelci_agent"
version = "0.1.0"
edition = "2021"
publish = false

[dependencies]
anyhow = "*"
rand = "*"
reqwest = { version = "*", default-features = false, features = ["blocking"] }
serde = { version = "*", features = ["derive"] }
serde_json = "*"
serde_yaml = "*"
tracing = "*"
