[package]
name = "firmware"
version = "0.1.0"
edition = "2021"
publish = false

[dependencies]
heapless = "=0.8.0"
embedded-graphics = "=0.8.2"
rmk = "=0.9.0"
