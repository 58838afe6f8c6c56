[package]
name = "retool"
version = "0.1.0"
edition = "2021"
publish = false

[dependencies]
json = "*"
regex = "*"
comfy-table = { version = "*", default-features = false }
anyhow = "*"
clap = { version = "*", features = ["derive"] }
