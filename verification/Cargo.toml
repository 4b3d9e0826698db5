[package]
name = "audio_bench"
version = "0.1.0"
edition = "2021"
publish = false

[dependencies]
zstd = "0.13"
hound = "3.5"
rustfft = "6"
serde = { version = "1", features = ["derive"] }
serde_json = "1"
clap = { version = "4", features = ["derive"] }
