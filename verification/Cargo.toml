[package]
name = "risculator"
version = "0.1.0"
edition = "2021"
publish = false

[dependencies]
chrono = "*"
colored = "*"
env_logger = "*"
log = "*"
