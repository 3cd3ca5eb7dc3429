[package]
name = "header_translator"
version = "0.1.0"
edition = "2021"
publish = false

[dependencies]
serde = { version = "1", features = ["derive"] }
tracing = "0.1"
clang = "2"
objc2 = "*"
