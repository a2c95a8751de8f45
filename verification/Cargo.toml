[package]
name = "mewcode"
version = "0.1.0"
edition = "2021"
publish = false

[dependencies]
unicode-width = "*"
unicode-segmentation = "*"
uuid = "*"
similar = "*"
serde = { version = "1", features = ["derive"] }
serde_json = "1"
serde_yaml = "*"
dirs = "*"
