[package]
name = "skip_rm"
version = "0.1.0"
edition = "2021"
publish = false

[dependencies]
expanduser = "*"
path-absolutize = "*"
regex = "*"
serde = { version = "*", features = ["derive"] }
serde_json = "*"
