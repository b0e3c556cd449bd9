[package]
name = "mae"
version = "0.1.0"
edition = "2021"
publish = false

[dependencies]
mail-parser = "*"
chrono = "*"
clap = { version = "*", features = ["derive"] }
current_platform = "*"
