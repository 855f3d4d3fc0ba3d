[package]
name = "stt"
version = "0.1.0"
edition = "2021"
publish = false

[dependencies]
anyhow = "1"
candle-core = { version = "0.9", default-features = false }
candle-nn = { version = "0.9", default-features = false }
chrono = "0.4"
clap = { version = "4", features = ["derive", "env"] }
crossterm = "0.28"
dirs = "6"
hf-hub = { version = "0.4", default-features = false, features = ["ureq"] }
libc = "0.2"
moshi = { version = "0.6", default-features = false }
ratatui = "0.29"
screencapturekit = "1.5"
sentencepiece = "0.11"
serde = { version = "1", features = ["derive"] }
serde_json = "1"
sherpa-rs = { version = "0.6", default-features = false }
signal-hook = "0.3"
whisper-rs = { version = "0.15", default-features = false }
