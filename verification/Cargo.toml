[package]
name = "qrc"
version = "0.1.0"
edition = "2021"
publish = false

[dependencies]
qrcode = "0.12"
image = "0.24"
flate2 = "1"
