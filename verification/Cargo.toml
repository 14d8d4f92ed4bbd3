[package]
name = "memeroute"
version = "0.1.0"
edition = "2021"
publish = false

[dependencies]
rand = "=0.8.8"
rust_decimal = "=1.43.0"
