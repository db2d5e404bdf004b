[package]
name = "firelight"
version = "0.1.0"
edition = "2021"
publish = false

[dependencies]
anyhow = "1"
clap = { version = "3", features = ["derive"] }
noise = "0.7"
palette = "0.6"
rouille = "3"
serde = { version = "1", features = ["derive"] }
ws281x = "*"
