[package]
name = "discord_honey_bot"
version = "0.1.0"
edition = "2021"
publish = false

[dependencies]
serenity = "0.12"
tokio = { version = "1", features = ["macros", "rt-multi-thread"] }
dotenvy = "0.15"
miette = "7"
