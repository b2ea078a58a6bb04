[package]
name = "vm_foundry"
version = "0.1.0"
edition = "2021"
publish = false

[dependencies]
anyhow = "1"
dirs = "*"
ratatui = "*"
unicode-width = "*"
