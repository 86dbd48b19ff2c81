[package]
name = "mu_t"
version = "0.1.0"
edition = "2021"
publish = false

[dependencies]
ropey = "2.0.0-alpha.1"
ratatui = "0.29"
crossterm = "0.28"
syntect = { version = "5", default-features = false, features = ["default-fancy"] }
serde = { version = "1", features = ["derive"] }
toml = "0.8"
color-eyre = "0.6"
