[package]
name = "kman"
version = "0.1.0"
edition = "2021"
publish = false

[dependencies]
anyhow = "*"
clap = { version = "*", features = ["derive"] }
clap-verbosity-flag = "*"
colored = "*"
dialoguer = "*"
directories = "*"
env_logger = "*"
human-panic = "*"
serde = { version = "*", features = ["derive"] }
serde_yml = "*"
