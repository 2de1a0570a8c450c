[package]
name = "bvoice"
version = "0.1.1"
edition = "2021"
publish = false

[dependencies]
anyhow = "1"
cpal = "0.15"
dirs = "6"
libpulse-binding = "2"
rdev = "0.5"
reqwest = { version = "0.12", default-features = false, features = ["blocking", "rustls-tls"] }
rubato = "0.16"
serde = { version = "1", features = ["derive"] }
toml = "0.8"
voice_activity_detector = "0.2"
whisper-rs = "0.15"
