[package]
name = "el320x240_36hb_sender"
version = "0.1.0"
edition = "2021"
publish = false

[dependencies]
bytes = "*"
serialport = { version = "*", default-features = false }
