[package]
name = "venue_rollup"
version = "0.1.0"
edition = "2021"
publish = false

[dependencies]
sha2 = "0.10"
base64 = "0.22"

[dev-dependencies]
serde_json = "1"
