[package]
name = "ipguard"
version = "0.1.0"
edition = "2021"
publish = false

[dependencies]
notify = "6"
regex = "1"
serde = { version = "1", features = ["derive"] }
tokio = { version = "1", features = ["macros", "rt-multi-thread", "sync", "time"] }
toml = "0.8"
