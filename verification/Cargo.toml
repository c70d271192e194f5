[package]
name = "mu-epub"
version = "0.1.0"
edition = "2021"
publish = false

[dependencies]
crc32fast = "1"
heapless = "0.8"
log = "0.4"
miniz_oxide = "0.8"
