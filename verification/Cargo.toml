[package]
name = "zotu"
version = "0.1.0"
edition = "2021"
publish = false

[dependencies]
rand = "*"
rodio = "*"
rusqlite = "*"
lofty = "*"
walkdir = "*"
serde = { version = "*", features = ["derive"] }
serde_yaml = "*"
uuid = { version = "*", features = ["v4"] }
image = "*"
