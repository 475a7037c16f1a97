[package]
name = "musicsloth"
version = "0.1.0"
edition = "2021"
publish = false

[dependencies]
anyhow = "1"
blake3 = "1"
cpal = "0.15"
ebur128 = "0.1"
lofty = "0.21"
parking_lot = "0.12"
rand = "0.8"
regex = "1"
ringbuf = "0.4"
rusqlite = { version = "0.31", features = ["bundled"] }
serde = { version = "1", features = ["derive"] }
serde_json = "1"
sha2 = "0.10"
symphonia = { version = "0.5", features = ["mp3", "aac", "isomp4"] }
walkdir = "2"
