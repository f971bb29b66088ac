[package]
name = "sparreal"
version = "0.1.0"
edition = "2021"
publish = false

[dependencies]
num-align = "*"
heapless = "0.8"
ranges-ext = "*"
byte-unit = "*"
uefi-raw = "*"
thiserror = "*"
bitflags = "2"
spin = "*"
