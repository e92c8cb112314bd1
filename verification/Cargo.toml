[package]
name = "uffd-tests"
version = "0.1.0"
edition = "2021"
publish = false

[dependencies]
clap = { version = "=4.6.7", features = ["derive"] }
env_logger = "=0.11.11"
libc = "=0.2.191"
log = "=0.4.35"
rand = "=0.8.8"
userfaultfd = { version = "=0.9.0", features = ["linux5_7", "linux5_13"] }
