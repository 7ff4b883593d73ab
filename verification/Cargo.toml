[package]
name = "augenblick"
version = "0.1.0"
edition = "2021"
publish = false

[dependencies]
serde = { version = "1", features = ["derive"] }
toml = "0.8"
x11rb = "0.13"
smithay-client-toolkit = { version = "0.19", default-features = false }
wayland-client = "0.31"
