[package]
name = "fuji"
version = "0.1.0"
edition = "2021"
publish = false

[dependencies]
dirs = "*"
libc = "*"
hactool-sys = "*"
