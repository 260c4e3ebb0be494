[package]
name = "vetkd_notes"
version = "0.1.0"
edition = "2021"
publish = false

[dependencies]
base64 = "0.13"
candid = "0.10"
hex = "0.4"
ic-cdk = "0.17"
ic-cdk-macros = "0.17"
ic-certified-map = "0.4"
ic-stable-structures = "0.6"
serde = { version = "1", features = ["derive"] }
serde_cbor = "0.11"
sha2 = "0.10"
