[package]
name = "lux_threshold"
version = "0.1.0"
edition = "2021"
publish = false

[dependencies]
micromath = "*"
