[package]
name = "os101"
version = "0.1.0"
edition = "2021"
publish = false

[dependencies]
bootloader_api = "0.11"
crossbeam-queue = "0.3"
noto-sans-mono-bitmap = "0.3"
pc-keyboard = "0.8"
spin = "0.9"
uart_16550 = "0.3"
