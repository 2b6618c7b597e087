[package]
name = "trace_decoder"
version = "0.1.0"
edition = "2021"
publish = false

[dependencies]
addr2line = "*"
anyhow = "*"
bus = "*"
clap = { version = "*", features = ["derive"] }
env_logger = "*"
indexmap = "*"
log = "*"
object = "*"
rvdasm = "*"
serde = { version = "*", features = ["derive"] }
serde_json = "*"
