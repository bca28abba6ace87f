[package]
name = "plate"
version = "0.1.0"
edition = "2021"

[dependencies]
ash = "0.37"
ash-window = "0.11"
thiserror = "1"
winit = "0.26"
