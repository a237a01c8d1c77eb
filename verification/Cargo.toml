[package]
name = "ffsub"
version = "0.1.0"
edition = "2021"
publish = false

[dependencies]
dirs-next = "2"
log = "0.4"
serde = { version = "1", features = ["derive"] }
serde_json = "1"
