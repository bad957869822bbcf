[package]
name = "auto_xkbmap"
version = "0.1.0"
edition = "2021"
publish = false

[dependencies]
libudev = "*"
notify-rust = "*"
xdg = "*"
