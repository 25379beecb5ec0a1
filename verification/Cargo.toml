[package]
name = "verigov"
version = "0.1.0"
edition = "2021"
publish = false

[dependencies]
frame-support = "40"
frame-system = "40"
parity-scale-codec = { version = "3", features = ["derive"] }
scale-info = { version = "2", features = ["derive"] }
sp-runtime = "41"
