[package]
name = "tuityloops"
version = "0.1.0"
edition = "2021"
publish = false

[dependencies]
anyhow = "1"
cpal = "0.15"
crossbeam-channel = "0.5"
crossterm = "0.28"
hound = "3.5"
ratatui = "0.28"
