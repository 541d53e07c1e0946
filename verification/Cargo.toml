[package]
name = "candidateparser-ffi"
version = "0.1.0"
edition = "2021"
publish = false

[dependencies]
candidateparser = "*"
libc = "0.2"
