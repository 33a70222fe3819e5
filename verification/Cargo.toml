[package]
name = "rekk"
version = "0.1.0"
edition = "2021"
publish = false

[dependencies]
block2 = "0.6"
chrono = "0.4"
cpal = "0.17"
dirs = "6"
hound = "3.5"
objc2 = "0.6"
objc2-av-foundation = "0.3"
once_cell = "1"
screencapturekit = "1"
serde = { version = "1", features = ["derive"] }
ureq = "2"
webrtc-audio-processing = "*"
whisper-rs = "*"
