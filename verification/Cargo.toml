[package]
name = "aiflow"
version = "0.1.0"
edition = "2021"
publish = false

[dependencies]
anyhow = "*"
repair_json = "*"
schemars = "*"
serde = { version = "*", features = ["derive"] }
serde_json = "*"
uuid = { version = "*", features = ["v7"] }
