[package]
name = "revproxy"
version = "0.1.0"
edition = "2021"
publish = false

[dependencies]
pingora = { version = "*", default-features = false, features = ["proxy"] }
async-trait = "*"
clap = { version = "*", features = ["derive"] }
env_logger = "*"
log = "*"
