[package]
name = "datestamp"
version = "0.1.0"
edition = "2021"
publish = false

[dependencies]
matroska = { version = "=0.30.1", features = ["time"] }
mp4 = "=0.14.0"
time = { version = "=0.3.55", features = ["parsing", "formatting"] }
xflags = "=0.3.2"
