[package]
name = "termslides"
version = "0.1.0"
edition = "2021"
publish = false

[dependencies]
rand = "=0.8.8"
fake = "=2.10.0"
crossterm = "=0.25.0"
nix = { version = "=0.26.4", features = ["signal"] }
image2ascii = "=0.2.1"
