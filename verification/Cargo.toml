[package]
name = "episode_store"
version = "0.1.0"
edition = "2021"
publish = false

[dependencies]
sled = "*"
rss = "*"
tokio = { version = "*", features = ["sync"], default-features = false }
async-trait = "*"
