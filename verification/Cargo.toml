[package]
name = "todotui"
version = "0.1.0"
edition = "2021"
publish = false

[dependencies]
ratatui = "*"
home = "*"
color-eyre = "*"
