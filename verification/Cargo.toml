[package]
name = "uuid_qr"
version = "0.1.0"
edition = "2021"
publish = false

[dependencies]
qrcodegen = "1"
rand = "0.8"
