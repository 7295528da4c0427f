[package]
name = "schluessel"
version = "0.1.0"
edition = "2021"
publish = false

[dependencies]
actix-web = "4"
actix-rt = "2"
serde = { version = "1", features = ["derive"] }
env_logger = "0.11"
log = "0.4"
