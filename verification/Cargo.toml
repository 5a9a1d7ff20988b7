[package]
name = "rpg_loot"
version = "0.1.0"
edition = "2021"
publish = false

[dependencies]
rand = "0.8.5"
serde = { version = "1", features = ["derive"] }
