[package]
name = "rusty_bits"
version = "0.1.0"
edition = "2021"
publish = false

[dependencies]
serde_json = "1"
url = "2"
reqwest = { version = "0.12", default-features = false, features = ["blocking", "multipart", "http2"] }
clap = { version = "4", features = ["derive"] }
anyhow = "1"
serde = { version = "1", features = ["derive"] }
serde_yaml = "*"
toml = "*"
log = "0.4"
env_logger = "*"
dirs = "*"
shellexpand = "*"
arboard = "*"
