[package]
name = "luminol"
version = "0.1.0"
edition = "2021"
publish = false

[dependencies]
percent-encoding = "=2.3.2"
egui = "=0.28.1"
portable-atomic = { version = "=1.15.0", features = ["float"] }
web-sys = { version = "=0.3.107", features = ["Window", "Location", "Navigator", "Performance"] }
strum = "=0.26.3"
num-traits = "=0.2.19"
