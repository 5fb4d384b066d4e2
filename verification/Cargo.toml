[package]
name = "prompt_sync"
version = "0.1.0"
edition = "2021"
publish = false

[dependencies]
anyhow = "*"
chrono = "*"
clap = { version = "*", features = ["derive"] }
libc = "*"
serde = { version = "*", features = ["derive"] }
serde_json = "*"
sha2 = "*"
toml = "*"
walkdir = "*"
