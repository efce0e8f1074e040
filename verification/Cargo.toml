[package]
name = "nodenuke"
version = "0.1.0"
edition = "2021"
publish = false

[dependencies]
jwalk = "*"
crossterm = "*"
ratatui = "*"
humansize = "*"
