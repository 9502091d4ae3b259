[package]
name = "wgbridge"
version = "0.1.0"
edition = "2021"
publish = false

[dependencies]
nmrs = "*"
serde = { version = "1", features = ["derive"] }
toml = "*"
clap = { version = "4", features = ["derive"] }
tokio = { version = "1", features = ["macros", "rt-multi-thread"] }
log = "*"
env_logger = "*"
