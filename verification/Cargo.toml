[package]
name = "wasi_preset_args"
version = "0.1.0"
edition = "2021"
publish = false

[dependencies]
walrus = "*"
anyhow = "*"
clap = { version = "*", features = ["derive"] }
