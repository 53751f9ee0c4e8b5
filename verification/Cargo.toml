[package]
name = "tchandle"
version = "0.1.0"
edition = "2021"
publish = false

[dependencies]
anyhow = "*"
aya = "*"
aya-log = "*"
clap = { version = "*", features = ["derive"] }
env_logger = "*"
log = "*"
tokio = { version = "*", features = ["macros", "rt", "signal"] }
