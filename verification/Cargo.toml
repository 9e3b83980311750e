[package]
name = "critter"
version = "0.1.0"
edition = "2021"
publish = false

[dependencies]
urlencoding = "2"
rust-crypto = "*"
base64 = "*"
rand = "0.8"
serde = { version = "1", features = ["derive"] }
serde_json = "1"
infer = "*"
reqwest = { version = "*", default-features = false, features = ["json", "multipart"] }
tokio = { version = "1", features = ["rt", "macros", "time"] }
