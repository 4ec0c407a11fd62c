[package]
name = "uhyve"
version = "0.1.0"
edition = "2021"
publish = false

[dependencies]
rand = "0.8"
raw-cpuid = "10"
libc = "0.2"
