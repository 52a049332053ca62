[package]
name = "private_tunnel"
version = "0.1.0"
edition = "2021"
publish = false

[dependencies]
clap = { version = "4", features = ["derive"] }
tun-tap = { version = "0.1", default-features = false }
