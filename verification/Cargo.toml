[package]
name = "create_vue"
version = "0.1.0"
edition = "2021"
publish = false

[dependencies]
anyhow = "*"
clap = { version = "*", features = ["derive"] }
colorful = "*"
console = "*"
dialoguer = "*"
regex = "*"
serde_json = "*"
