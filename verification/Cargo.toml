[package]
name = "rsa_keypair"
version = "0.1.0"
edition = "2021"
publish = false

[dependencies]
anyhow = "1.0"
base64 = "0.13"
once_cell = "1"
openssl = "0.10"
serde_json = "1.0"
