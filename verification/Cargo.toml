[package]
name = "shutterproto"
version = "0.1.0"
edition = "2021"
publish = false

[dependencies]
flatbuffers = "*"
serde = "*"
serde_derive = "*"
toml = "*"
directories = "*"
anyhow = "*"
