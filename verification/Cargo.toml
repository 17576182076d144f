[package]
name = "turingarena"
version = "0.1.0"
edition = "2021"
publish = false

[dependencies]
base64 = "0.13"
chrono = "0.4"
sha2 = "0.10"
tar = "0.4"
xz2 = "0.1"
