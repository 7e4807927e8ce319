[package]
name = "slcanx"
version = "0.1.0"
edition = "2021"
publish = false

[dependencies]
anyhow = "1"
crossbeam-channel = "0.5"
log = "0.4"
serialport = { version = "4", default-features = false }
socketcan = { version = "3", default-features = false }
