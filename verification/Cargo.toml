[package]
name = "liil"
version = "0.1.0"
edition = "2021"
publish = false

[dependencies]
rustc_apfloat = "*"
rand = "*"
clap = { version = "*", features = ["derive"] }
