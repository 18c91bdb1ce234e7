[package]
name = "yashiki"
version = "0.1.0"
edition = "2021"
publish = false

[dependencies]
anyhow = "*"
argh = "*"
libc = "*"
serde = { version = "*", features = ["derive"] }
serde_json = "*"
