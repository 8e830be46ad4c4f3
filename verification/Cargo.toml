[package]
name = "chat_core"
version = "0.1.0"
edition = "2021"
publish = false

[dependencies]
rand = "0.8"
serde = { version = "1", features = ["derive"] }
toml = "0.8"
log = "0.4"
simple_logger = "4"
rayon = "1"
thiserror = "1"
