[package]
name = "border_async"
version = "0.1.0"
edition = "2021"
publish = false

[dependencies]
anyhow = "1"
candle-core = "*"
candle-nn = "*"
serde = { version = "1", features = ["derive"] }
