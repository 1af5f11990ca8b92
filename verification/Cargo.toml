[package]
name = "sprattus"
version = "0.1.0"
edition = "2021"
publish = false

[dependencies]
tokio-postgres = "*"
tokio = { version = "*", features = ["rt", "sync"] }
