[package]
name = "render_bridge"
version = "0.1.0"
edition = "2021"
publish = false

[dependencies]
image = { version = "=0.24.9", default-features = false, features = ["png", "jpeg"] }
rust-fontconfig = "*"
skrifa = "*"
taffy = "=0.4.4"
