[package]
name = "ssh_notifier"
version = "0.1.0"
edition = "2021"
publish = false

[dependencies]
kdl = "*"
chrono = "*"
anyhow = "*"
dirs = "*"
env_logger = "*"
log = "*"
