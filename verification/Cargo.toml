[package]
name = "vid2mp3"
version = "0.1.0"
edition = "2021"
publish = false

[dependencies]
url = "2"
colored = "2"
indicatif = "0.17"
inquire = "0.7"
tokio = { version = "1", features = ["rt-multi-thread", "macros", "process", "io-util", "signal"] }
