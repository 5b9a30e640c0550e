[package]
name = "rustydomo"
version = "0.1.0"
edition = "2021"
publish = false

[dependencies]
zmq = "0.10"
log = "0.4"
env_logger = "*"
