[package]
name = "chip8_core"
version = "0.1.0"
edition = "2021"
publish = false

[dependencies]
rand = "0.9"
thiserror = "2"
serde = { version = "1", features = ["derive"] }
