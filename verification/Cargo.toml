[package]
name = "gdevice"
version = "0.1.0"
edition = "2021"
publish = false

[dependencies]
hex = "0.4"
log = "0.4"
quick-error = "2.0"
rusb = "0.9"
