[package]
name = "icmc"
version = "0.1.0"
edition = "2021"
publish = false

[dependencies]
regex = "=1.13.1"
log = "=0.4.35"
env_logger = "=0.10.2"
async-channel = "2"
