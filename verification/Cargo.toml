[package]
name = "certkit"
version = "0.1.0"
edition = "2021"
publish = false

[dependencies]
getrandom = "*"
sha1 = "*"
sha2 = "*"
