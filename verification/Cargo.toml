[package]
name = "trussfs"
version = "0.2.0"
edition = "2021"
publish = false

[dependencies]
zip = "*"
notify = "*"
log = "*"
env_logger = "*"
