[package]
name = "whiplash"
version = "0.1.0"
edition = "2021"
publish = false

[dependencies]
sha2 = "0.10"
base64 = "0.22"
rand = "0.8"
regex = "1"
serde_json = "1"
serde = { version = "1", features = ["derive"] }
chrono = "0.4"
dirs = "5"
walkdir = "2"
ignore = "0.4"
audiotags = "0.5"
rusqlite = { version = "0.31", features = ["bundled"] }
reqwest = { version = "0.12", default-features = false, features = ["json", "rustls-tls"] }
tokio = { version = "1", features = ["net", "io-util", "process"] }
symphonia = "0.5"
rodio = "0.19"
