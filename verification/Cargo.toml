[package]
name = "hyperlink"
version = "0.1.0"
edition = "2021"
publish = false

[dependencies]
bumpalo = { version = "=3.20.3", features = ["collections"] }
html5gum = "=0.2.2"
