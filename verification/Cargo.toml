[package]
name = "crypto"
version = "0.1.0"
edition = "2021"
publish = false

[dependencies]
ring = "0.17"
clap = { version = "4", features = ["derive"] }
