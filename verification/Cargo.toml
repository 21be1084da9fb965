[package]
name = "fastio"
version = "0.3.0"
edition = "2021"
publish = false

[dependencies]
memmap2 = "0.9"
region = "3"
zeropool = "*"
libc = "0.2"
io-uring = "0.7"
tokio = { version = "1", default-features = false, features = ["fs", "rt"] }
