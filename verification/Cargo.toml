[package]
name = "moss"
version = "0.2.0"
edition = "2021"
publish = false

[dependencies]
x86_64 = { version = "=0.15.5", default-features = false, features = ["instructions"] }
multiboot2 = "=0.28.0"
uart_16550 = "=0.9.0"
tock-registers = "=0.10.1"
log = "=0.4.35"
