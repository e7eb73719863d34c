[package]
name = "renim"
version = "0.1.0"
edition = "2021"
publish = false

[dependencies]
bootloader_api = "=0.11.17"
pic8259 = { version = "=0.11.0", default-features = false }
uart_16550 = "=0.3.2"
x86_64 = { version = "=0.15.5", default-features = false, features = ["instructions"] }
