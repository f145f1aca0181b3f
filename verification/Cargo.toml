[package]
name = "dio_align"
version = "0.1.0"
edition = "2021"
publish = false

[dependencies]
rustix = { version = "1", features = ["fs", "system"] }

[dev-dependencies]
tempfile = "3"
