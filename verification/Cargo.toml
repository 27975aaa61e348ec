[package]
name = "lg600r"
version = "0.1.0"
edition = "2021"
publish = false

[dependencies]
toml = "0.5"
evdev-rs = "*"
libc = "0.2"
xdg = "2"
dirs = "*"
