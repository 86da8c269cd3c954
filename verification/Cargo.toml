[package]
name = "todors"
version = "0.1.0"
edition = "2021"
publish = false

[dependencies]
regex = "*"
chrono = "*"
clap = { version = "*", features = ["derive"] }
clap_complete = "*"
serde = { version = "*", features = ["derive"] }
toml = "*"
termcolor = "*"
shellexpand = "*"
log = "*"
env_logger = "*"
anyhow = "*"
