[package]
name = "pastabox"
version = "0.1.0"
edition = "2021"
publish = false

[dependencies]
clipboard-win = "*"
serde = { version = "1", features = ["derive"] }
