[package]
name = "wooting_shouting"
version = "0.1.0"
edition = "2021"
publish = false

[dependencies]
anyhow = "*"
chrono = "*"
ctrlc = "*"
env_logger = "*"
hidapi = "*"
input-linux = "*"
libc = "*"
log = "*"
sqlite = "*"
timer = "*"
wooting-analog-plugin-dev = "*"
