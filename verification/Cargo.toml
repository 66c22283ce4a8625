[package]
name = "tessera"
version = "0.1.0"
edition = "2021"
publish = false

[dependencies]
crossbeam-channel = "0.5"
fontdue = "0.9"
serde = { version = "1", features = ["derive"] }
toml = "0.9"
x11rb = { version = "0.13", features = ["randr"] }
