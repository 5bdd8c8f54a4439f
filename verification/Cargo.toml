[package]
name = "striputary"
version = "0.1.0"
edition = "2021"
publish = false

[dependencies]
anyhow = "1"
chrono = "0.4"
clap = { version = "4", features = ["derive"] }
hound = "3"
log = "0.4"
serde = { version = "1", features = ["derive"] }
serde_yaml = "0.9"
shellexpand = "3"
simplelog = "0.12"
time = "0.3"
xdg = "2"
