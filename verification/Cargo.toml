[package]
name = "can_udp_bridge"
version = "0.1.0"
edition = "2021"
publish = false

[dependencies]
anyhow = "*"
async-io = "*"
clap = { version = "*", features = ["derive"] }
futures = "*"
libc = "*"
smol = "*"
socketcan = "*"
