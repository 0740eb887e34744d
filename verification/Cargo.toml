[package]
name = "rust_transform"
version = "0.1.0"
edition = "2021"
publish = false

[dependencies]
rayon = "*"

[dev-dependencies]
serde_json = "*"
