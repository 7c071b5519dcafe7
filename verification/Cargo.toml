[package]
name = "nearby_rs"
version = "0.1.0"
edition = "2021"
publish = false

[dependencies]
prost = { version = "0.13", default-features = false, features = ["std"] }
tokio = { version = "1", features = ["macros", "rt", "sync", "time"] }
