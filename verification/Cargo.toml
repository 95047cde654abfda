[package]
name = "hvcell"
version = "0.1.0"
edition = "2021"
publish = false

[dependencies]
spin = "0.9"
aarch64-cpu = "9"
tock-registers = "0.8"
