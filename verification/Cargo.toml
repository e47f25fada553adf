[package]
name = "typescript_eslint"
version = "0.1.0"
edition = "2021"
publish = false

[dependencies]
regex = "1"
unicode-segmentation = "1"
indexmap = "2"
serde = { version = "1", features = ["derive"] }
