[package]
name = "suzaku"
version = "0.1.0"
edition = "2021"
publish = false

[dependencies]
chrono = "*"
comfy-table = "*"
csv = "*"
krapslog = "*"
num-format = "*"
serde_json = "*"
sigma-rust = "*"
termcolor = "*"
terminal_size = "*"
