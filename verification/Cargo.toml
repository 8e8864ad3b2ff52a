[package]
name = "console_prompt"
version = "0.1.0"
edition = "2021"
publish = false

[dependencies]
crossterm = "0.26"
rustyline = "10"
