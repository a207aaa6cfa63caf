[package]
name = "hexotk"
version = "0.1.0"
edition = "2021"
publish = false

[dependencies]
baseview = { version = "=0.1.4", features = ["opengl"] }
femtovg = "=0.28.0"
gl = "=0.14.0"
keyboard-types = "=0.6.2"
objc = "=0.2.7"
raw-window-handle = "=0.5.2"
