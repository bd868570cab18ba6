[package]
name = "gatekeeper"
version = "0.1.0"
edition = "2021"
publish = false

[dependencies]
serenity = "0.10"
tokio = { version = "1", features = ["macros", "rt-multi-thread"] }
chrono = "0.4"
