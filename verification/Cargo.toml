[package]
name = "ygopro"
version = "0.1.0"
edition = "2021"
publish = false

[dependencies]
anyhow = "1"
libc = "0.2"
log = "0.4"
simple_logger = "*"
tokio = { version = "1", features = ["net", "io-util", "rt"] }
