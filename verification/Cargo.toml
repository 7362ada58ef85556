[package]
name = "butter_video"
version = "0.1.0"
edition = "2021"
publish = false

[dependencies]
av-metrics-decoders = { version = "=0.3.2", features = ["ffmpeg"] }
average = "=0.17.0"
clap = "=3.2.25"
easy-cast = ">=0.5.0, <0.5.5"
image = { version = "=0.25.10", default-features = false, features = ["png"] }
tempfile = "=3.27.0"
yuv = "=0.1.10"
