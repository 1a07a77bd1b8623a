[package]
name = "latex2anki"
version = "0.1.0"
edition = "2021"
publish = false

[dependencies]
genanki-rs = "0.4"
rand = "0.8"
