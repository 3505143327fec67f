[package]
name = "stardust"
version = "0.1.0"
edition = "2021"

[dependencies]
iced = { version = "=0.13.1", default-features = false, features = ["canvas"] }
