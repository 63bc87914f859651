[package]
name = "inferno_aoip"
version = "0.1.0"
edition = "2021"
publish = false

[dependencies]
binary_serde = "*"
bytebuffer = "*"
futures = "*"
hex = "*"
tokio = { version = "1", features = ["macros", "net", "rt", "sync", "time"] }
