[package]
name = "dyndns"
version = "0.1.0"
edition = "2021"
publish = false

[dependencies]
digitalocean = "0.1"
reqwest = "0.11"
tokio = { version = "1", features = ["macros", "rt-multi-thread", "time"] }
