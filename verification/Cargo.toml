[package]
name = "rlox"
version = "1.0.0"
edition = "2021"
publish = false

[dependencies]
clap = "2"
env_logger = "*"
log = "0.4"
rustc_apfloat = "*"
