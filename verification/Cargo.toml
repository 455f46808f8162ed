[package]
name = "trng_core"
version = "0.1.0"
edition = "2021"
publish = false

[dependencies]
env_logger = "*"
futures = "0.3"
libc = "0.2"
log = "0.4"
serde = { version = "1", features = ["derive"] }
tokio = { version = "1", features = ["full"] }
toml = "*"
zbus = "*"
