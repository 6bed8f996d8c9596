[package]
name = "portfolio_tracker"
version = "0.1.0"
edition = "2021"
publish = false

[dependencies]
anyhow = "1"
clap = { version = "4", features = ["derive"] }
config = { version = "*", default-features = false, features = ["toml"] }
prettytable-rs = "0.10"
reqwest = { version = "0.12", features = ["blocking", "json"] }
rust_decimal = "1"
serde = { version = "1", features = ["derive"] }
shellexpand = "3"
time = { version = "0.3", features = ["formatting"] }
