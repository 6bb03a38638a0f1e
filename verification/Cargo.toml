[package]
name = "forrest"
version = "0.1.0"
edition = "2021"
publish = false

[dependencies]
anyhow = "1"
log = "0.4"
pretty_env_logger = "*"
rand = "0.8"
sd-notify = "*"
tokio = { version = "1", features = ["macros", "rt", "time"] }
