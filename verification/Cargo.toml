[package]
name = "kernel"
version = "0.1.0"
edition = "2021"
publish = false

[dependencies]
bootloader_api = "*"
eyre = "*"
noto-sans-mono-bitmap = "*"
pc-keyboard = "*"
pic8259 = "*"
spin = "*"
x86_64 = "*"
