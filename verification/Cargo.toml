[package]
name = "connection_handshake"
version = "0.1.0"
edition = "2021"
publish = false

[dependencies]
anyhow = "=1.0.104"
async-trait = "=0.1.92"
ibc = "0.57.0"
tracing = "=0.1.44"
