[package]
name = "stusb4500"
version = "0.1.0"
edition = "2021"
publish = false

[dependencies]
embedded-hal = "*"
linux-embedded-hal = "*"
