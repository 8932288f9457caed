[package]
name = "rustytop"
version = "0.1.0"
edition = "2021"

[dependencies]
ratatui = "0.27"
sysinfo = "0.30"
users = "0.11"
