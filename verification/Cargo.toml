[package]
name = "clockwork"
version = "0.1.0"
edition = "2021"
publish = false

[dependencies]
array2d = "0.2"
serde = { version = "1", features = ["derive"] }
uuid = { version = "0.8", features = ["serde", "v4"] }
strum = "0.19"
strum_macros = "0.19"
