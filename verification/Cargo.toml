[package]
name = "wallpp"
version = "0.1.0"
edition = "2021"
publish = false

[dependencies]
rand = "0.8"
serde = { version = "1", features = ["derive"] }
serde_json = "1"
clap = { version = "4", features = ["derive"] }
shellexpand = "3"
colored = "2"
magic = "*"
opencv = "*"
