[package]
name = "networked_filesystem"
version = "0.1.0"
edition = "2021"
publish = false

[dependencies]
arrayvec = "0.7"
flume = "0.11"
input-macro = "*"
multipeek = "*"
serde = { version = "1", features = ["derive"] }
tokio = { version = "1", features = ["sync", "net", "io-util", "rt-multi-thread", "macros"] }
