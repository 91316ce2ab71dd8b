[package]
name = "mcp3208"
version = "0.1.0"
edition = "2021"
publish = false

[dependencies]
spidev = "*"
