[package]
name = "ataraxy"
version = "0.1.0"
edition = "2021"
publish = false

[dependencies]
serenity = { version = "=0.10.10", features = ["unstable_discord_api"] }
async-trait = "=0.1.92"
