[package]
name = "cursor_analyzer"
version = "0.1.0"
edition = "2021"
publish = false

[dependencies]
crossbeam-channel = "*"
env_logger = "*"
ffmpeg-sidecar = "*"
