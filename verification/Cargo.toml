[package]
name = "copyup"
version = "0.1.0"
edition = "2021"
publish = false

[dependencies]
strsim = "*"
serde = { version = "1", features = ["derive"] }
serde_json = "1"
reqwest = "0.9"
clap = "2"
