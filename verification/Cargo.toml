[package]
name = "qr_fountain_gen"
version = "0.1.0"
edition = "2021"
publish = false

[dependencies]
apng-encoder = "*"
hex = "*"
qrcodegen = "*"
raptorq = "*"
regex = "*"
