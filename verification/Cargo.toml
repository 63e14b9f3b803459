[package]
name = "digit_net"
version = "0.1.0"
edition = "2021"
publish = false

[dependencies]
random = "0.12"
