[package]
name = "phash"
version = "0.1.0"
edition = "2021"
publish = false

[dependencies]
image = "0.24"
rustdct = "0.7"
libc = "0.2"
