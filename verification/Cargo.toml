[package]
name = "vrc_stt"
version = "0.1.0"
edition = "2021"
publish = false

[dependencies]
anyhow = "1"
arrayvec = "0.7"
audioadapter-buffers = "*"
chrono = "0.4"
cpal = "*"
ctrlc = "3"
dirs = "*"
eframe = { version = "*", default-features = false, features = ["glow", "default_fonts", "x11"] }
env_logger = "*"
log = "0.4"
parking_lot = "0.12"
rosc = "*"
rubato = "*"
rust-i18n = "*"
serde = { version = "1", features = ["derive"] }
serde_json = "1"
uds_windows = "*"
webrtc-vad = "*"
whisper-rs = "*"
