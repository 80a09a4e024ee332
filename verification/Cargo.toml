[package]
name = "joycombinerd"
version = "0.1.0"
edition = "2021"
publish = false

[dependencies]
anyhow = "*"
bit-set = "*"
evdev = "*"
polling = "*"
udev = "*"
