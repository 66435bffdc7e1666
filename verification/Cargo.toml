[package]
name = "thumbnailer"
version = "0.1.0"
edition = "2021"
publish = false

[dependencies]
png = "0.17"
webp = { version = "0.2", default-features = false }
tokio = { version = "1", features = ["rt", "fs"] }
