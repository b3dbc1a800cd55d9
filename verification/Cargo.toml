[package]
name = "ibtop"
version = "0.1.0"
edition = "2021"
publish = false

[dependencies]
chrono = "*"
clap = { version = "*", features = ["derive"] }
color-eyre = "*"
config = { version = "*", default-features = false }
crossterm = "=0.28.1"
gag = "*"
ratatui = "=0.29.0"
rayon = "*"
regex = "*"
serde = { version = "*", features = ["derive"] }
