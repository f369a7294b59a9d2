[package]
name = "k4refresh"
version = "0.1.4"
edition = "2021"
publish = false

[dependencies]
libc = "0.2"
