[package]
name = "traybridge"
version = "0.1.0"
edition = "2021"
publish = false

[dependencies]
bimap = "=0.6.3"
new_mime_guess = "=4.0.4"
xml-rs = "*"
