[package]
name = "valhall"
version = "0.1.0"
edition = "2021"
publish = false

[dependencies]
sha256 = "*"
semver = "*"
serde = { version = "*", features = ["derive"] }
serde_json = "*"
