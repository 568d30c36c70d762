[package]
name = "wooting_analog_midi"
version = "0.1.0"
edition = "2021"
publish = false

[dependencies]
anyhow = "*"
env_logger = "*"
log = "*"
midir = "*"
spin_sleep_util = "*"
