[package]
name = "merlin"
version = "0.1.0"
edition = "2021"
publish = false

[dependencies]
hashbrown = "*"
unicode-segmentation = "*"
colored = "*"
clap = { version = "*", features = ["derive"] }
