[package]
name = "arcane_frames"
version = "0.1.0"
edition = "2021"
publish = false

[dependencies]
anyhow = "1"
console = "*"
serialport = { version = "*", default-features = false }
