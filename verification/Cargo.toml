[package]
name = "weigand_access"
version = "0.1.0"
edition = "2021"
publish = false

[dependencies]
bit_field = "0.10"
byteorder = "1"
color-eyre = "0.6"
rppal = "*"
serde = { version = "1", features = ["derive"] }
serde_json = "1"
serde_with = "*"
tokio = { version = "1", features = ["full"] }
tracing = "0.1"
