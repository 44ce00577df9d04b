[package]
name = "vdotapes_core"
version = "0.1.0"
edition = "2021"
publish = false

[dependencies]
blake3 = "1"
image = { version = "0.24", default-features = false, features = ["jpeg", "png"] }
ffmpeg-next = "*"
tokio = { version = "1", default-features = false, features = ["fs", "rt", "sync", "macros"] }
walkdir = "2"
chrono = "0.4"
