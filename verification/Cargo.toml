[package]
name = "spectral_frames"
version = "0.1.0"
edition = "2021"
publish = false

[dependencies]
rustfft = "6"
symphonia = { version = "0.5", features = ["mp3"] }
