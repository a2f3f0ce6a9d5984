[package]
name = "ringbuf"
version = "0.1.0"
edition = "2021"
publish = false

[dependencies]
cache-padded = "1"
