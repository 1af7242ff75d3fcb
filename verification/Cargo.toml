[package]
name = "grepbot"
version = "0.1.0"
edition = "2021"
publish = false

[dependencies]
regex = "1"
discord = { version = "*", default-features = false }
