[package]
name = "bridgetest"
version = "0.1.0"
edition = "2021"
publish = false

[dependencies]
bimap = "*"
rand = "*"
sha1 = "*"
base64 = "*"
serde = { version = "*", features = ["derive"] }
serde_json = "*"
clap = "*"
config = "*"
dirs = "*"
