[package]
name = "moonwatch_rs"
version = "0.1.0"
edition = "2021"
publish = false

[dependencies]
anyhow = "1"
chrono = "0.4"
crossbeam-channel = "0.5"
json = "0.12"
regex = "1"
sha1 = "0.10"
signal-hook = "0.3"
whoami = "1"
