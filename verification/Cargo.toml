[package]
name = "circbuf"
version = "0.2.1"
edition = "2021"
publish = false

[dependencies]
bytes = "1"

[dev-dependencies]
tempfile = "3"
vecio = "0.1"
