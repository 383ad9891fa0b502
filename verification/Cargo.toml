[package]
name = "chip_8_emulator"
version = "0.1.0"
edition = "2021"
publish = false

[dependencies]
rand = "*"
cursive = "*"
crossbeam-channel = "*"
