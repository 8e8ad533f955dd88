[package]
name = "rust-expect"
version = "0.1.0"
edition = "2021"
publish = false

[dependencies]
regex = "1"
libc = "0.2"
tracing = "0.1"
thiserror = "2"
memchr = "2"
