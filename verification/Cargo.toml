[package]
name = "fog_human_json"
version = "0.1.0"
edition = "2021"
publish = false

[dependencies]
base64 = "*"
chrono = "*"
fog-pack = "*"
fog-crypto = "*"
serde_json = "*"
ryu = "*"

[dev-dependencies]
rand = "*"
