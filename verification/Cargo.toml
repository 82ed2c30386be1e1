[package]
name = "libos_runtime"
version = "0.1.0"
edition = "2021"
publish = false

[dependencies]
bit-vec = "=0.6.3"
futures = "=0.3.34"
libc = "=0.2.191"
spin = "=0.8.1"
