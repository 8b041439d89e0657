[package]
name = "nautilus_server"
version = "0.1.0"
edition = "2021"
publish = false

[dependencies]
aws-nitro-enclaves-nsm-api = "=0.5.2"
fastcrypto = "=0.1.11"
rand = "=0.8.8"
serde = { version = "=1.0.229", features = ["derive"] }
serde_bytes = "=0.11.19"
serde_json = "=1.0.154"

[dev-dependencies]
bcs = "=0.1.6"
