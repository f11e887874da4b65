[package]
name = "ghciwatch"
version = "0.1.0"
edition = "2021"
publish = false

[dependencies]
strip-ansi-escapes = "=0.2.1"
shell-words = "=1.1.1"
owo-colors = { version = "=4.4.0", features = ["supports-colors"] }
supports-color = "=3.0.2"
