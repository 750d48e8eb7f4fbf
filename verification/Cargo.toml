[package]
name = "ehdump"
version = "0.1.0"
edition = "2021"
publish = false

[dependencies]
gimli = "=0.34.0"
object = "=0.40.0"
memmap = "=0.7.0"
serde = { version = "*", features = ["derive"] }
serde_json = "*"
postgres = { version = "=0.19.14", features = ["with-serde_json-1"] }
anyhow = "*"
