[package]
name = "native_messaging"
version = "0.1.0"
edition = "2021"
publish = false

[dependencies]
registry = "*"
serde = "1"
serde_derive = "1"
serde_json = "1"
tokio = { version = "1", features = ["io-std", "io-util", "rt"] }
utfx = "*"
