[package]
name = "battery_threshold"
version = "0.1.0"
edition = "2021"
publish = false

[dependencies]
gtk4 = "0.9"
glib = "0.20"
