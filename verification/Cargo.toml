[package]
name = "sparkle"
version = "0.1.0"
edition = "2021"
publish = false

[dependencies]
ndarray = "*"
jagged_array = "*"
streaming-iterator = "*"
serde = { version = "1", features = ["derive"] }
