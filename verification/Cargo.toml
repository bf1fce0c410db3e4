[package]
name = "banlist"
version = "0.1.0"
edition = "2021"
publish = false

[dependencies]
anyhow = "1"
dotenv = "0.15"
serenity = "0.11"
tokio = { version = "1", features = ["macros", "rt"] }
