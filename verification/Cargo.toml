[package]
name = "virtual_soundboard"
version = "0.1.0"
edition = "2021"
publish = false

[dependencies]
cpal = "*"
hound = "3.5"
minimp3 = "0.5"
ringbuf = "0.4"
serde = { version = "1", features = ["derive"] }
serde_json = "1"
global-hotkey = "0.7"
