[package]
name = "flashdark"
version = "0.1.0"
edition = "2021"
publish = false

[dependencies]
geng = "0.13"
batbox = "0.13"
serde = { version = "1", features = ["derive"] }
serde_json = "1"
anyhow = "1"
