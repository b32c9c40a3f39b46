[package]
name = "akv"
version = "0.1.0"
edition = "2021"
publish = false

[dependencies]
serde = { version = "1", features = ["derive"] }
serde_json = "1"
tokio = { version = "1", features = ["full"] }
toml = "*"
clap = { version = "4", features = ["derive"] }
rustyline = "*"
bincode = { version = "2", features = ["derive"] }
