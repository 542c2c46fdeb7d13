[package]
name = "bracket_terminal"
version = "0.1.0"
edition = "2021"
publish = false

[dependencies]
image = { version = "0.24", default-features = false, features = ["png"] }
crossterm = "0.25"
bracket-color = "0.8"
glow = "0.12"
