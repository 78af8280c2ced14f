[package]
name = "plushie"
version = "0.1.0"
edition = "2021"

[dependencies]
unicode-width = "*"
anyhow = "*"
clap = { version = "*", features = ["derive"] }
