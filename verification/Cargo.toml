[package]
name = "wintab_lite"
version = "1.0.1"
edition = "2021"
publish = false

[dependencies]
libloading = "0.8"
windows = { version = "0.52", features = ["Win32_Foundation"] }
