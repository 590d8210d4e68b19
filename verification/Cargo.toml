[package]
name = "keychord"
version = "0.1.0"
edition = "2021"
publish = false

[dependencies]
anyhow = "1"
rdev = { version = "0.5", features = ["unstable_grab"] }
