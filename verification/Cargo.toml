[package]
name = "pairfq"
version = "1.1.0"
edition = "2021"
publish = false

[dependencies]
ahash = "0.8"
anyhow = "1"
bzip2 = "*"
clap = { version = "4", features = ["derive"] }
env_logger = "*"
flate2 = "1"
log = "0.4"
needletail = "*"
sled = "0.34"
tempfile = "3"
