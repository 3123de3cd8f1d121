[package]
name = "loopmix"
version = "0.1.0"
edition = "2021"
publish = false

[dependencies]
rtrb = "*"
cpal = "*"
crossbeam-channel = "*"
serde = { version = "*", features = ["derive"] }
serde_json = "*"
