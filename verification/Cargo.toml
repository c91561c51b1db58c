[package]
name = "block_restore"
version = "0.1.0"
edition = "2021"
publish = false

[dependencies]
lz4 = "*"
rust-s3 = "*"
tokio = { version = "*", features = ["macros", "rt"] }
